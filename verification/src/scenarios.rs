//! The content-addressed store of scenarios. A scenario is found again by
//! its unit and the digest of its payload, so submitting one payload twice
//! leaves one row.

use crate::digest::{canonical_json, canonicalize, digest_hex, digest_of};
use crate::errors::{ApiError, ApiErrorView};
use crate::models::{copy_bytes, Scenario, ScenarioView};
use crate::ordering::{in_order, lemma_in_order, lemma_place_of};
use crate::paging::Deleted;
use crate::solver_runs::text_view;
use vstd::prelude::*;
use vstd::string::StringExecFns;

verus! {

/// A new scenario: its unit, where it comes from, its payload as JSON
/// text, and who made it.
#[derive(Clone, Debug, PartialEq, Eq)]
pub struct CreateScenarioBody {
    pub unit_id: i64,
    pub source: String,
    pub payload: String,
    pub created_by: Option<i64>,
}

/// A change of a scenario: a new status, or none.
#[derive(Clone, Debug, PartialEq, Eq)]
pub struct PatchScenarioBody {
    pub status: Option<String>,
}

/// The filter of the list of scenarios: a unit, or none.
#[derive(Clone, Copy, Debug, PartialEq, Eq, Structural)]
pub struct ListQ {
    pub unit_id: Option<i64>,
}

/// The rows that a list for a unit shows, in the order of the table; all
/// rows where no unit is named.
pub open spec fn unit_rows(rows: Seq<ScenarioView>, unit_id: Option<i64>) -> Seq<ScenarioView> {
    rows.filter(|row: ScenarioView| unit_id is None || unit_id == Some(row.unit_id))
}

/// The order of a list that shows the most recent scenario first.
pub open spec fn not_older() -> spec_fn(ScenarioView, ScenarioView) -> bool {
    |a: ScenarioView, b: ScenarioView| a.created_at >= b.created_at
}

/// Rows listed most recent first. Rows created at one time stay in the
/// order in which they stand.
pub open spec fn recent_first(rows: Seq<ScenarioView>) -> Seq<ScenarioView> {
    in_order(rows, not_older())
}

/// A list made by `recent_first` shows every row as often as it stands in
/// the table, and no row before a more recent one.
pub proof fn lemma_recent_first(rows: Seq<ScenarioView>)
    ensures
        forall|i: int, j: int|
            0 <= i < j < rows.len() ==> (#[trigger] recent_first(rows)[i]).created_at >= (
            #[trigger] recent_first(rows)[j]).created_at,
        recent_first(rows).len() == rows.len(),
        recent_first(rows).to_multiset() == rows.to_multiset(),
{
    lemma_in_order(rows, not_older());
    let listed = recent_first(rows);
    assert forall|i: int, j: int| 0 <= i < j < rows.len() implies (
    #[trigger] listed[i]).created_at >= (#[trigger] listed[j]).created_at by {
        assert(not_older()(listed[i], listed[j]));
    }
}

/// The status of a scenario that waits for a run.
pub open spec fn ready_status() -> Seq<char> {
    "ready"@
}

/// The words of the failure when no id is left for a new scenario.
pub open spec fn ids_exhausted() -> Seq<char> {
    "scenario ids exhausted"@
}

/// Whether a row is the scenario of a unit with a digest.
pub open spec fn is_content(row: ScenarioView, unit_id: i64, hash: Seq<char>) -> bool {
    row.unit_id == unit_id && row.input_hash == hash
}

/// A row after its payload was submitted again: the payload is refreshed
/// and the scenario waits for a run again. Nothing else changes.
pub open spec fn resubmitted(row: ScenarioView, canonical: Seq<u8>) -> ScenarioView {
    ScenarioView { payload: canonical, status: ready_status(), ..row }
}

/// A row with another status.
pub open spec fn with_status(row: ScenarioView, status: Seq<char>) -> ScenarioView {
    ScenarioView { status, ..row }
}

/// The scenarios of the store, in the order in which they were first
/// submitted, and the id that the next new scenario gets.
pub struct ScenarioTable {
    pub rows: Seq<ScenarioView>,
    pub next_id: int,
}

impl ScenarioTable {
    /// What holds of every table: ids were issued below `next_id` and none
    /// twice; no two rows share unit and digest; the digest of a row is the
    /// digest of its payload.
    pub open spec fn wf(self) -> bool {
        &&& 1 <= self.next_id <= i64::MAX
        &&& forall|i: int|
            0 <= i < self.rows.len() ==> (#[trigger] self.rows[i]).scenario_id < self.next_id
        &&& forall|i: int, j: int|
            0 <= i < self.rows.len() && 0 <= j < self.rows.len() && i != j ==> (
            #[trigger] self.rows[i]).scenario_id != (#[trigger] self.rows[j]).scenario_id
        &&& forall|i: int, j: int|
            0 <= i < self.rows.len() && 0 <= j < self.rows.len() && i != j ==> !is_content(
                #[trigger] self.rows[i],
                (#[trigger] self.rows[j]).unit_id,
                self.rows[j].input_hash,
            )
        &&& forall|i: int|
            0 <= i < self.rows.len() ==> (#[trigger] self.rows[i]).input_hash == digest_of(
                self.rows[i].payload,
            )
    }

    /// Whether the table holds the scenario of a unit with a digest.
    pub open spec fn holds(self, unit_id: i64, hash: Seq<char>) -> bool {
        exists|i: int| 0 <= i < self.rows.len() && is_content(#[trigger] self.rows[i], unit_id, hash)
    }

    /// Whether the table holds a scenario with an id.
    pub open spec fn has_id(self, scenario_id: i64) -> bool {
        exists|i: int|
            0 <= i < self.rows.len() && (#[trigger] self.rows[i]).scenario_id == scenario_id
    }

    /// The table after the canonical payload of a unit was submitted: the
    /// row with its digest is refreshed where there is one, else a new row
    /// is added at the end.
    pub open spec fn submit(
        self,
        unit_id: i64,
        source: Seq<char>,
        canonical: Seq<u8>,
        created_by: Option<i64>,
        now: i64,
    ) -> ScenarioTable {
        let hash = digest_of(canonical);
        if self.holds(unit_id, hash) {
            ScenarioTable {
                rows: self.rows.map_values(
                    |row: ScenarioView|
                        if is_content(row, unit_id, hash) {
                            resubmitted(row, canonical)
                        } else {
                            row
                        },
                ),
                next_id: self.next_id,
            }
        } else {
            ScenarioTable {
                rows: self.rows.push(
                    ScenarioView {
                        scenario_id: self.next_id as i64,
                        unit_id,
                        source,
                        input_hash: hash,
                        payload: canonical,
                        status: ready_status(),
                        created_by,
                        created_at: now,
                    },
                ),
                next_id: self.next_id + 1,
            }
        }
    }

    /// The table without the scenario with an id.
    pub open spec fn delete(self, scenario_id: i64) -> ScenarioTable {
        ScenarioTable {
            rows: self.rows.filter(|row: ScenarioView| row.scenario_id != scenario_id),
            next_id: self.next_id,
        }
    }

    /// The table after the scenario with an id, if there is one, was given
    /// a status.
    pub open spec fn set_status(self, scenario_id: i64, status: Seq<char>) -> ScenarioTable {
        ScenarioTable {
            rows: self.rows.map_values(
                |row: ScenarioView|
                    if row.scenario_id == scenario_id {
                        with_status(row, status)
                    } else {
                        row
                    },
            ),
            next_id: self.next_id,
        }
    }
}

/// Submitting keeps a table well formed, as long as an id is left for a new
/// scenario.
pub proof fn lemma_submit_keeps_wf(
    table: ScenarioTable,
    unit_id: i64,
    source: Seq<char>,
    canonical: Seq<u8>,
    created_by: Option<i64>,
    now: i64,
)
    requires
        table.wf(),
        table.holds(unit_id, digest_of(canonical)) || table.next_id < i64::MAX,
    ensures
        table.submit(unit_id, source, canonical, created_by, now).wf(),
        table.submit(unit_id, source, canonical, created_by, now).holds(
            unit_id,
            digest_of(canonical),
        ),
{
    let hash = digest_of(canonical);
    let after = table.submit(unit_id, source, canonical, created_by, now);
    if table.holds(unit_id, hash) {
        let i = choose|i: int|
            0 <= i < table.rows.len() && is_content(#[trigger] table.rows[i], unit_id, hash);
        assert(is_content(after.rows[i], unit_id, hash));
    } else {
        assert(is_content(after.rows[table.rows.len() as int], unit_id, hash));
    }
}

/// Submitting one canonical payload twice for one unit leaves the table as
/// it was after the first time: one row, with the same digest.
pub proof fn lemma_submit_is_idempotent(
    table: ScenarioTable,
    unit_id: i64,
    canonical: Seq<u8>,
    first_source: Seq<char>,
    first_by: Option<i64>,
    first_now: i64,
    second_source: Seq<char>,
    second_by: Option<i64>,
    second_now: i64,
)
    requires
        table.wf(),
        table.holds(unit_id, digest_of(canonical)) || table.next_id < i64::MAX,
    ensures
        ({
            let once = table.submit(unit_id, first_source, canonical, first_by, first_now);
            once.submit(unit_id, second_source, canonical, second_by, second_now) == once
        }),
{
    let once = table.submit(unit_id, first_source, canonical, first_by, first_now);
    let twice = once.submit(unit_id, second_source, canonical, second_by, second_now);
    lemma_submit_keeps_wf(table, unit_id, first_source, canonical, first_by, first_now);
    assert(once.rows =~= twice.rows);
}

/// Submitting the payload of a scenario again, whatever has become of the
/// scenario since, makes it wait for a run again, and changes no other row.
pub proof fn lemma_resubmission_resets_status(
    table: ScenarioTable,
    i: int,
    source: Seq<char>,
    canonical: Seq<u8>,
    created_by: Option<i64>,
    now: i64,
)
    requires
        table.wf(),
        0 <= i < table.rows.len(),
        table.rows[i].payload == canonical,
    ensures
        ({
            let after = table.submit(table.rows[i].unit_id, source, canonical, created_by, now);
            &&& after.rows.len() == table.rows.len()
            &&& after.rows[i] == with_status(table.rows[i], ready_status())
            &&& forall|k: int| 0 <= k < table.rows.len() && k != i ==> after.rows[k] == table.rows[k]
        }),
{
    let unit_id = table.rows[i].unit_id;
    let after = table.submit(unit_id, source, canonical, created_by, now);
    assert(is_content(table.rows[i], unit_id, digest_of(canonical)));
    assert forall|k: int| 0 <= k < table.rows.len() && k != i implies after.rows[k]
        == table.rows[k] by {
        assert(!is_content(table.rows[k], table.rows[i].unit_id, table.rows[i].input_hash));
    }
}

/// Taking out the one row with an id leaves the rows with other ids.
proof fn lemma_remove_is_filter(rows: Seq<ScenarioView>, i: int, scenario_id: i64)
    requires
        0 <= i < rows.len(),
        rows[i].scenario_id == scenario_id,
        forall|k: int| 0 <= k < rows.len() && k != i ==> (#[trigger] rows[k]).scenario_id != scenario_id,
    ensures
        rows.filter(|row: ScenarioView| row.scenario_id != scenario_id) == rows.remove(i),
    decreases rows.len(),
{
    reveal(Seq::filter);
    let keep = |row: ScenarioView| row.scenario_id != scenario_id;
    let rest = rows.drop_last();
    if i == rows.len() - 1 {
        assert forall|k: int| 0 <= k < rest.len() implies (#[trigger] rest[k]).scenario_id
            != scenario_id by {
            assert(rest[k] == rows[k]);
        }
        lemma_absent_filter_keeps(rest, scenario_id);
        assert(rows.remove(i) =~= rest);
    } else {
        assert(rest[i] == rows[i]);
        assert forall|k: int| 0 <= k < rest.len() && k != i implies (
        #[trigger] rest[k]).scenario_id != scenario_id by {
            assert(rest[k] == rows[k]);
        }
        lemma_remove_is_filter(rest, i, scenario_id);
        assert(rows[rows.len() - 1].scenario_id != scenario_id);
        assert(rows.remove(i) =~= rest.remove(i).push(rows.last()));
    }
}

/// Where no row has an id, all rows are rows with other ids.
proof fn lemma_absent_filter_keeps(rows: Seq<ScenarioView>, scenario_id: i64)
    requires
        forall|k: int| 0 <= k < rows.len() ==> (#[trigger] rows[k]).scenario_id != scenario_id,
    ensures
        rows.filter(|row: ScenarioView| row.scenario_id != scenario_id) == rows,
    decreases rows.len(),
{
    reveal(Seq::filter);
    if rows.len() > 0 {
        let rest = rows.drop_last();
        assert forall|k: int| 0 <= k < rest.len() implies (#[trigger] rest[k]).scenario_id
            != scenario_id by {
            assert(rest[k] == rows[k]);
        }
        lemma_absent_filter_keeps(rest, scenario_id);
        assert(rows[rows.len() - 1].scenario_id != scenario_id);
        assert(rest.push(rows.last()) =~= rows);
    }
}

/// What a submission does and answers.
///
/// A payload that is no JSON document is refused as malformed. A payload
/// that would need a new scenario is refused when no id is left. In both
/// cases the table stays as it was. Otherwise the table is the one that
/// `ScenarioTable::submit` gives, and the answer is the row of the unit with
/// the digest of the payload.
pub open spec fn submitted(
    before: ScenarioTable,
    after: ScenarioTable,
    r: Result<Scenario, ApiError>,
    unit_id: i64,
    source: Seq<char>,
    payload: Seq<char>,
    created_by: Option<i64>,
    now: i64,
) -> bool {
    match canonical_json(payload) {
        None => r is Err && r->Err_0@ is MalformedPayload && after == before,
        Some(canonical) => if !before.holds(unit_id, digest_of(canonical)) && before.next_id
            == i64::MAX {
            r is Err && r->Err_0@ == (ApiErrorView::StoreFailed { cause: ids_exhausted() })
                && after == before
        } else {
            r is Ok && after == before.submit(unit_id, source, canonical, created_by, now)
                && after.rows.contains(r->Ok_0@) && is_content(
                r->Ok_0@,
                unit_id,
                digest_of(canonical),
            )
        },
    }
}

/// The store of scenarios.
pub struct ScenarioStore {
    rows: Vec<Scenario>,
    next_id: i64,
}

impl View for ScenarioStore {
    type V = ScenarioTable;

    closed spec fn view(&self) -> ScenarioTable {
        ScenarioTable {
            rows: self.rows@.map_values(|row: Scenario| row@),
            next_id: self.next_id as int,
        }
    }
}

impl ScenarioStore {
    /// An empty store, whose first scenario gets the id 1.
    pub fn new() -> (store: ScenarioStore)
        ensures
            store@.wf(),
            store@.rows.len() == 0,
            store@.next_id == 1,
    {
        ScenarioStore { rows: Vec::new(), next_id: 1 }
    }

    /// The number of scenarios.
    pub fn len(&self) -> (n: usize)
        ensures
            n == self@.rows.len(),
    {
        self.rows.len()
    }

    /// The place of the scenario of a unit with a digest.
    fn position(&self, unit_id: i64, hash: &String) -> (r: Option<usize>)
        ensures
            match r {
                Some(i) => i < self@.rows.len() && is_content(self@.rows[i as int], unit_id, hash@),
                None => !self@.holds(unit_id, hash@),
            },
    {
        let mut i: usize = 0;
        while i < self.rows.len()
            invariant
                i <= self.rows.len(),
                forall|k: int| 0 <= k < i ==> !is_content(#[trigger] self@.rows[k], unit_id, hash@),
            decreases self.rows.len() - i,
        {
            if self.rows[i].unit_id == unit_id && self.rows[i].input_hash == *hash {
                return Some(i);
            }
            i += 1;
        }
        None
    }

    /// The place of the scenario with an id.
    fn position_of_id(&self, scenario_id: i64) -> (r: Option<usize>)
        ensures
            match r {
                Some(i) => i < self@.rows.len() && self@.rows[i as int].scenario_id == scenario_id,
                None => !self@.has_id(scenario_id),
            },
    {
        let mut i: usize = 0;
        while i < self.rows.len()
            invariant
                i <= self.rows.len(),
                forall|k: int| 0 <= k < i ==> (#[trigger] self@.rows[k]).scenario_id != scenario_id,
            decreases self.rows.len() - i,
        {
            if self.rows[i].scenario_id == scenario_id {
                return Some(i);
            }
            i += 1;
        }
        None
    }

    /// Submits the payload of a scenario, given as JSON text.
    ///
    /// The payload is brought into its canonical bytes, whose digest is the
    /// key of the scenario within its unit. Where the unit has a scenario
    /// with that digest, its payload is refreshed and it waits for a run
    /// again; otherwise a new scenario is created, which waits for a run.
    /// The scenario is returned as it then stands in the store.
    ///
    /// A text that is no JSON document is refused, and so is a new scenario
    /// when no id is left; the store is then as it was.
    pub fn submit(
        &mut self,
        unit_id: i64,
        source: String,
        payload: &str,
        created_by: Option<i64>,
        now: i64,
    ) -> (r: Result<Scenario, ApiError>)
        requires
            old(self)@.wf(),
        ensures
            final(self)@.wf(),
            submitted(
                old(self)@,
                final(self)@,
                r,
                unit_id,
                source@,
                payload@,
                created_by,
                now,
            ),
    {
        let canonical = match canonicalize(payload) {
            Ok(bytes) => bytes,
            Err(words) => {
                return Err(ApiError::MalformedPayload { cause: words });
            },
        };
        let hash = digest_hex(canonical.as_slice());
        match self.position(unit_id, &hash) {
            Some(i) => {
                let row = Scenario {
                    scenario_id: self.rows[i].scenario_id,
                    unit_id: self.rows[i].unit_id,
                    source: self.rows[i].source.clone(),
                    input_hash: self.rows[i].input_hash.clone(),
                    payload: canonical,
                    status: String::from_str("ready"),
                    created_by: self.rows[i].created_by,
                    created_at: self.rows[i].created_at,
                };
                let stored = row.duplicate();
                self.rows.set(i, row);
                proof {
                    let before = old(self)@;
                    let after = before.submit(unit_id, source@, canonical@, created_by, now);
                    assert(is_content(before.rows[i as int], unit_id, hash@));
                    assert forall|k: int| 0 <= k < before.rows.len() implies self@.rows[k]
                        == after.rows[k] by {
                        if k != i {
                            assert(!is_content(
                                before.rows[k],
                                before.rows[i as int].unit_id,
                                before.rows[i as int].input_hash,
                            ));
                        }
                    }
                    assert(self@.rows =~= after.rows);
                    assert(self@.rows[i as int] == stored@);
                }
                Ok(stored)
            },
            None => {
                if self.next_id == i64::MAX {
                    return Err(ApiError::StoreFailed { cause: String::from_str("scenario ids exhausted") });
                }
                let row = Scenario {
                    scenario_id: self.next_id,
                    unit_id,
                    source,
                    input_hash: hash,
                    payload: canonical,
                    status: String::from_str("ready"),
                    created_by,
                    created_at: now,
                };
                let stored = row.duplicate();
                self.rows.push(row);
                self.next_id = self.next_id + 1;
                proof {
                    let before = old(self)@;
                    let after = before.submit(unit_id, source@, canonical@, created_by, now);
                    assert(self@.rows =~= after.rows);
                    assert(self@.rows[before.rows.len() as int] == stored@);
                }
                Ok(stored)
            },
        }
    }

    /// Submits the scenario of a request.
    pub fn create(&mut self, body: CreateScenarioBody, now: i64) -> (r: Result<Scenario, ApiError>)
        requires
            old(self)@.wf(),
        ensures
            final(self)@.wf(),
            submitted(
                old(self)@,
                final(self)@,
                r,
                body.unit_id,
                body.source@,
                body.payload@,
                body.created_by,
                now,
            ),
    {
        let CreateScenarioBody { unit_id, source, payload, created_by } = body;
        self.submit(unit_id, source, payload.as_str(), created_by, now)
    }

    /// The scenario with an id, if there is one.
    pub fn get(&self, scenario_id: i64) -> (r: Option<Scenario>)
        ensures
            r is Some <==> self@.has_id(scenario_id),
            r matches Some(row) ==> self@.rows.contains(row@) && row@.scenario_id == scenario_id,
    {
        match self.position_of_id(scenario_id) {
            Some(i) => {
                let row = self.rows[i].duplicate();
                assert(self@.rows[i as int] == row@);
                Some(row)
            },
            None => None,
        }
    }

    /// The scenarios of a unit, or all scenarios where the filter names no
    /// unit; the most recent first.
    pub fn list(&self, q: &ListQ) -> (listed: Vec<Scenario>)
        ensures
            listed@.map_values(|row: Scenario| row@) == recent_first(
                unit_rows(self@.rows, q.unit_id),
            ),
    {
        let ghost rows = self@.rows;
        let mut listed: Vec<Scenario> = Vec::new();
        let mut i: usize = 0;
        proof {
            reveal(Seq::filter);
            assert(recent_first(unit_rows(rows.take(0), q.unit_id)) =~= listed@.map_values(
                |row: Scenario| row@,
            ));
        }
        while i < self.rows.len()
            invariant
                i <= self.rows.len(),
                rows == self@.rows,
                rows.len() == self.rows.len(),
                listed@.map_values(|row: Scenario| row@) == recent_first(
                    unit_rows(rows.take(i as int), q.unit_id),
                ),
            decreases self.rows.len() - i,
        {
            let ghost before = unit_rows(rows.take(i as int), q.unit_id);
            let ghost now = unit_rows(rows.take(i + 1), q.unit_id);
            proof {
                reveal(Seq::filter);
                assert(rows.take(i + 1).drop_last() =~= rows.take(i as int));
                assert(rows.take(i + 1).last() == self.rows[i as int]@);
            }
            let shown = match q.unit_id {
                None => true,
                Some(unit_id) => self.rows[i].unit_id == unit_id,
            };
            if shown {
                let at = self.rows[i].created_at;
                let ghost shown_rows = listed@.map_values(|row: Scenario| row@);
                let mut place: usize = 0;
                while place < listed.len() && listed[place].created_at >= at
                    invariant
                        place <= listed.len(),
                        shown_rows == listed@.map_values(|row: Scenario| row@),
                        forall|k: int|
                            0 <= k < place ==> (#[trigger] shown_rows[k]).created_at >= at,
                    decreases listed.len() - place,
                {
                    place += 1;
                }
                proof {
                    lemma_place_of(shown_rows, self.rows[i as int]@, not_older(), place as int);
                    assert(now == before.push(self.rows[i as int]@));
                    assert(now.drop_last() =~= before);
                }
                let row = self.rows[i].duplicate();
                listed.insert(place, row);
                proof {
                    assert(listed@.map_values(|row: Scenario| row@) =~= shown_rows.insert(
                        place as int,
                        row@,
                    ));
                }
            }
            i += 1;
        }
        proof {
            assert(rows.take(self.rows.len() as int) =~= rows);
        }
        listed
    }

    /// Removes the scenario with an id, and tells whether there was one.
    pub fn delete(&mut self, scenario_id: i64) -> (r: Deleted)
        requires
            old(self)@.wf(),
        ensures
            final(self)@.wf(),
            final(self)@ == old(self)@.delete(scenario_id),
            r.deleted == old(self)@.has_id(scenario_id),
            !final(self)@.has_id(scenario_id),
    {
        match self.position_of_id(scenario_id) {
            Some(i) => {
                let _ = self.rows.remove(i);
                proof {
                    let before = old(self)@;
                    lemma_remove_is_filter(before.rows, i as int, scenario_id);
                    assert(self@.rows =~= before.rows.remove(i as int));
                    assert forall|k: int| 0 <= k < self@.rows.len() implies (
                    #[trigger] self@.rows[k]).scenario_id != scenario_id by {
                        if k < i {
                            assert(self@.rows[k] == before.rows[k]);
                        } else {
                            assert(self@.rows[k] == before.rows[k + 1]);
                        }
                    }
                    assert forall|a: int, b: int|
                        0 <= a < self@.rows.len() && 0 <= b < self@.rows.len() && a != b implies (
                    #[trigger] self@.rows[a]).scenario_id != (#[trigger] self@.rows[b]).scenario_id
                        && !is_content(self@.rows[a], self@.rows[b].unit_id, self@.rows[b].input_hash) by {
                        let a0 = if a < i { a } else { a + 1 };
                        let b0 = if b < i { b } else { b + 1 };
                        assert(self@.rows[a] == before.rows[a0]);
                        assert(self@.rows[b] == before.rows[b0]);
                    }
                    assert forall|k: int| 0 <= k < self@.rows.len() implies (
                    #[trigger] self@.rows[k]).scenario_id < self@.next_id && self@.rows[k].input_hash
                        == digest_of(self@.rows[k].payload) by {
                        let k0 = if k < i { k } else { k + 1 };
                        assert(self@.rows[k] == before.rows[k0]);
                    }
                }
                Deleted { deleted: true }
            },
            None => {
                proof {
                    lemma_absent_filter_keeps(old(self)@.rows, scenario_id);
                }
                Deleted { deleted: false }
            },
        }
    }

    /// Changes the scenario with an id as the request says, and returns it
    /// as it then stands; `None` where there is no such scenario.
    pub fn patch(&mut self, scenario_id: i64, body: &PatchScenarioBody) -> (r: Option<Scenario>)
        requires
            old(self)@.wf(),
        ensures
            final(self)@.wf(),
            final(self)@ == match text_view(body.status) {
                Some(status) => old(self)@.set_status(scenario_id, status),
                None => old(self)@,
            },
            r is Some <==> old(self)@.has_id(scenario_id),
            r matches Some(row) ==> final(self)@.rows.contains(row@) && row@.scenario_id
                == scenario_id,
    {
        match &body.status {
            Some(status) => {
                let _ = self.set_status(scenario_id, status.as_str());
                proof {
                    if old(self)@.has_id(scenario_id) {
                        let i = choose|i: int|
                            0 <= i < old(self)@.rows.len() && (#[trigger] old(self)@.rows[i]).scenario_id == scenario_id;
                        assert(self@.rows[i].scenario_id == scenario_id);
                    }
                    if self@.has_id(scenario_id) {
                        let i = choose|i: int|
                            0 <= i < self@.rows.len() && (#[trigger] self@.rows[i]).scenario_id
                                == scenario_id;
                        assert(old(self)@.rows[i].scenario_id == scenario_id);
                    }
                }
            },
            None => {},
        }
        self.get(scenario_id)
    }

    /// Gives the scenario with an id a status, and tells whether there is
    /// such a scenario.
    pub fn set_status(&mut self, scenario_id: i64, status: &str) -> (found: bool)
        requires
            old(self)@.wf(),
        ensures
            final(self)@.wf(),
            final(self)@ == old(self)@.set_status(scenario_id, status@),
            found == old(self)@.has_id(scenario_id),
    {
        match self.position_of_id(scenario_id) {
            Some(i) => {
                let row = Scenario {
                    scenario_id: self.rows[i].scenario_id,
                    unit_id: self.rows[i].unit_id,
                    source: self.rows[i].source.clone(),
                    input_hash: self.rows[i].input_hash.clone(),
                    payload: copy_bytes(&self.rows[i].payload),
                    status: String::from_str(status),
                    created_by: self.rows[i].created_by,
                    created_at: self.rows[i].created_at,
                };
                self.rows.set(i, row);
                proof {
                    let before = old(self)@;
                    let after = before.set_status(scenario_id, status@);
                    assert forall|k: int| 0 <= k < before.rows.len() implies self@.rows[k]
                        == after.rows[k] by {
                        if k != i {
                            assert(before.rows[k].scenario_id != before.rows[i as int].scenario_id);
                        }
                    }
                    assert(self@.rows =~= after.rows);
                }
                true
            },
            None => {
                proof {
                    let before = old(self)@;
                    let after = before.set_status(scenario_id, status@);
                    assert(self@.rows =~= after.rows);
                }
                false
            },
        }
    }
}

} // verus!
