//! Resolution of the names that the solver writes to the keys of the
//! store. Names are matched without regard to case and to surrounding white
//! space.

use crate::errors::{ApiError, ApiErrorView};
use crate::models::{ShiftPattern, Staff};
use crate::text::{norm, normalized};
use vstd::hash_map::StringHashMap;
use vstd::prelude::*;

verus! {

/// The table from normalised shift names to shift ids. Rows enter in their
/// order, so of two rows with one normalised name the later one stays.
pub open spec fn shift_lookup(rows: Seq<(i64, String)>) -> Map<Seq<char>, i64>
    decreases rows.len(),
{
    if rows.len() == 0 {
        Map::empty()
    } else {
        shift_lookup(rows.drop_last()).insert(normalized(rows.last().1@), rows.last().0)
    }
}

/// What one staff row adds to a table: its code, where it has one, and then
/// its full name, both normalised and both leading to its id.
pub open spec fn with_staff_row(
    table: Map<Seq<char>, i64>,
    row: (i64, Option<String>, String),
) -> Map<Seq<char>, i64> {
    let coded = match row.1 {
        Some(code) => table.insert(normalized(code@), row.0),
        None => table,
    };
    coded.insert(normalized(row.2@), row.0)
}

/// The table from normalised staff codes and full names to staff ids.
pub open spec fn staff_lookup(rows: Seq<(i64, Option<String>, String)>) -> Map<Seq<char>, i64>
    decreases rows.len(),
{
    if rows.len() == 0 {
        Map::empty()
    } else {
        with_staff_row(staff_lookup(rows.drop_last()), rows.last())
    }
}

/// What a raw name resolves to in a table.
pub open spec fn resolved(table: Map<Seq<char>, i64>, raw: Seq<char>) -> Option<i64> {
    if table.contains_key(normalized(raw)) {
        Some(table[normalized(raw)])
    } else {
        None
    }
}

/// The shift patterns of a unit as rows of id and name, in their order.
pub open spec fn unit_shift_rows(shifts: Seq<ShiftPattern>, unit_id: i64) -> Seq<(i64, String)> {
    shifts.filter(|s: ShiftPattern| s.unit_id == unit_id).map_values(
        |s: ShiftPattern| (s.shift_pattern_id, s.name),
    )
}

/// The staff of a unit as rows of id, code and full name, in their order.
pub open spec fn unit_staff_rows(staffs: Seq<Staff>, unit_id: i64) -> Seq<
    (i64, Option<String>, String),
> {
    staffs.filter(|s: Staff| s.unit_id == unit_id).map_values(
        |s: Staff| (s.staff_id, Some(s.code), s.full_name),
    )
}

/// The shift patterns and the staff of all units, as far as resolution
/// reads them.
pub struct Directory {
    pub shift_patterns: Vec<ShiftPattern>,
    pub staffs: Vec<Staff>,
}

impl Directory {
    /// The shift table of a unit.
    pub open spec fn shifts_of(&self, unit_id: i64) -> Map<Seq<char>, i64> {
        shift_lookup(unit_shift_rows(self.shift_patterns@, unit_id))
    }

    /// The staff table of a unit.
    pub open spec fn staff_of(&self, unit_id: i64) -> Map<Seq<char>, i64> {
        staff_lookup(unit_staff_rows(self.staffs@, unit_id))
    }

    /// The shift patterns of a unit, as id and name.
    pub fn shift_rows(&self, unit_id: i64) -> (rows: Vec<(i64, String)>)
        ensures
            rows@ == unit_shift_rows(self.shift_patterns@, unit_id),
    {
        let mut rows: Vec<(i64, String)> = Vec::new();
        let mut i: usize = 0;
        proof {
            reveal(Seq::filter);
            assert(unit_shift_rows(self.shift_patterns@.take(0), unit_id) =~= rows@);
        }
        while i < self.shift_patterns.len()
            invariant
                i <= self.shift_patterns.len(),
                rows@ == unit_shift_rows(self.shift_patterns@.take(i as int), unit_id),
            decreases self.shift_patterns.len() - i,
        {
            let ghost before = self.shift_patterns@.take(i as int);
            let ghost now = self.shift_patterns@.take(i + 1);
            proof {
                reveal(Seq::filter);
                assert(now.drop_last() =~= before);
            }
            if self.shift_patterns[i].unit_id == unit_id {
                rows.push((self.shift_patterns[i].shift_pattern_id, self.shift_patterns[i].name.clone()));
                proof {
                    assert(rows@ =~= unit_shift_rows(now, unit_id));
                }
            }
            i += 1;
        }
        proof {
            assert(self.shift_patterns@.take(self.shift_patterns.len() as int)
                =~= self.shift_patterns@);
        }
        rows
    }

    /// The staff of a unit, as id, code and full name.
    pub fn staff_rows(&self, unit_id: i64) -> (rows: Vec<(i64, Option<String>, String)>)
        ensures
            rows@ == unit_staff_rows(self.staffs@, unit_id),
    {
        let mut rows: Vec<(i64, Option<String>, String)> = Vec::new();
        let mut i: usize = 0;
        proof {
            reveal(Seq::filter);
            assert(unit_staff_rows(self.staffs@.take(0), unit_id) =~= rows@);
        }
        while i < self.staffs.len()
            invariant
                i <= self.staffs.len(),
                rows@ == unit_staff_rows(self.staffs@.take(i as int), unit_id),
            decreases self.staffs.len() - i,
        {
            let ghost before = self.staffs@.take(i as int);
            let ghost now = self.staffs@.take(i + 1);
            proof {
                reveal(Seq::filter);
                assert(now.drop_last() =~= before);
            }
            if self.staffs[i].unit_id == unit_id {
                rows.push(
                    (
                        self.staffs[i].staff_id,
                        Some(self.staffs[i].code.clone()),
                        self.staffs[i].full_name.clone(),
                    ),
                );
                proof {
                    assert(rows@ =~= unit_staff_rows(now, unit_id));
                }
            }
            i += 1;
        }
        proof {
            assert(self.staffs@.take(self.staffs.len() as int) =~= self.staffs@);
        }
        rows
    }
}

/// The two lookup tables of one unit.
pub struct Resolver {
    shift_id_by_name: StringHashMap<i64>,
    staff_id_by_key: StringHashMap<i64>,
}

impl Resolver {
    /// The table of shifts.
    pub closed spec fn shifts(&self) -> Map<Seq<char>, i64> {
        self.shift_id_by_name@
    }

    /// The table of staff.
    pub closed spec fn staff(&self) -> Map<Seq<char>, i64> {
        self.staff_id_by_key@
    }

    /// Builds the tables from the shift patterns `(id, name)` and the staff
    /// `(id, code, full name)` of a unit.
    pub fn build(
        shift_rows: &Vec<(i64, String)>,
        staff_rows: &Vec<(i64, Option<String>, String)>,
    ) -> (r: Resolver)
        ensures
            r.shifts() == shift_lookup(shift_rows@),
            r.staff() == staff_lookup(staff_rows@),
    {
        let mut shift_id_by_name: StringHashMap<i64> = StringHashMap::new();
        let mut i: usize = 0;
        while i < shift_rows.len()
            invariant
                i <= shift_rows.len(),
                shift_id_by_name@ == shift_lookup(shift_rows@.take(i as int)),
            decreases shift_rows.len() - i,
        {
            proof {
                assert(shift_rows@.take(i + 1).drop_last() =~= shift_rows@.take(i as int));
            }
            shift_id_by_name.insert(norm(shift_rows[i].1.as_str()), shift_rows[i].0);
            i += 1;
        }
        let mut staff_id_by_key: StringHashMap<i64> = StringHashMap::new();
        let mut j: usize = 0;
        while j < staff_rows.len()
            invariant
                j <= staff_rows.len(),
                staff_id_by_key@ == staff_lookup(staff_rows@.take(j as int)),
            decreases staff_rows.len() - j,
        {
            proof {
                assert(staff_rows@.take(j + 1).drop_last() =~= staff_rows@.take(j as int));
            }
            match &staff_rows[j].1 {
                Some(code) => {
                    staff_id_by_key.insert(norm(code.as_str()), staff_rows[j].0);
                },
                None => {},
            }
            staff_id_by_key.insert(norm(staff_rows[j].2.as_str()), staff_rows[j].0);
            j += 1;
        }
        proof {
            assert(shift_rows@.take(shift_rows.len() as int) =~= shift_rows@);
            assert(staff_rows@.take(staff_rows.len() as int) =~= staff_rows@);
        }
        Resolver { shift_id_by_name, staff_id_by_key }
    }

    /// Builds the tables of a unit from its shift patterns and staff.
    pub fn for_unit(directory: &Directory, unit_id: i64) -> (r: Resolver)
        ensures
            r.shifts() == directory.shifts_of(unit_id),
            r.staff() == directory.staff_of(unit_id),
    {
        let shift_rows = directory.shift_rows(unit_id);
        let staff_rows = directory.staff_rows(unit_id);
        Resolver::build(&shift_rows, &staff_rows)
    }

    /// The id of the shift that the solver calls `raw`, or the failure that
    /// names `raw` as it was written.
    pub fn resolve_shift(&self, raw: &str) -> (r: Result<i64, ApiError>)
        ensures
            match resolved(self.shifts(), raw@) {
                Some(id) => r == Ok::<i64, ApiError>(id),
                None => r is Err && r->Err_0@ == (ApiErrorView::UnknownShift { token: raw@ }),
            },
    {
        let key = norm(raw);
        match self.shift_id_by_name.get(key.as_str()) {
            Some(id) => Ok(*id),
            None => Err(ApiError::UnknownShift { token: raw.to_owned() }),
        }
    }

    /// The id of the nurse that the solver calls `raw`, by code or by full
    /// name, or the failure that names `raw` as it was written.
    pub fn resolve_staff(&self, raw: &str) -> (r: Result<i64, ApiError>)
        ensures
            match resolved(self.staff(), raw@) {
                Some(id) => r == Ok::<i64, ApiError>(id),
                None => r is Err && r->Err_0@ == (ApiErrorView::UnknownStaff { token: raw@ }),
            },
    {
        let key = norm(raw);
        match self.staff_id_by_key.get(key.as_str()) {
            Some(id) => Ok(*id),
            None => Err(ApiError::UnknownStaff { token: raw.to_owned() }),
        }
    }
}

/// Two raw names with one normal form resolve alike: resolution does not
/// see case or surrounding white space.
pub proof fn lemma_resolution_sees_normal_form_only(
    table: Map<Seq<char>, i64>,
    a: Seq<char>,
    b: Seq<char>,
)
    requires
        normalized(a) == normalized(b),
    ensures
        resolved(table, a) == resolved(table, b),
{
}

/// A name is known to the shift table exactly when some row carries it, up
/// to normal form.
pub proof fn lemma_shift_known_iff_listed(rows: Seq<(i64, String)>, key: Seq<char>)
    ensures
        shift_lookup(rows).contains_key(key) <==> exists|i: int|
            0 <= i < rows.len() && normalized(#[trigger] rows[i].1@) == key,
    decreases rows.len(),
{
    if rows.len() > 0 {
        let rest = rows.drop_last();
        lemma_shift_known_iff_listed(rest, key);
        if shift_lookup(rows).contains_key(key) {
            if normalized(rows.last().1@) == key {
                assert(normalized(rows[rows.len() - 1].1@) == key);
            } else {
                let i = choose|i: int| 0 <= i < rest.len() && normalized(#[trigger] rest[i].1@) == key;
                assert(normalized(rows[i].1@) == key);
            }
        }
        if exists|i: int| 0 <= i < rows.len() && normalized(#[trigger] rows[i].1@) == key {
            let i = choose|i: int| 0 <= i < rows.len() && normalized(#[trigger] rows[i].1@) == key;
            if i < rest.len() {
                assert(normalized(rest[i].1@) == key);
            }
        }
    }
}

/// Of the rows that carry one name, up to normal form, the last one gives
/// the shift id.
pub proof fn lemma_shift_last_row_wins(rows: Seq<(i64, String)>, i: int)
    requires
        0 <= i < rows.len(),
        forall|j: int| i < j < rows.len() ==> normalized(#[trigger] rows[j].1@) != normalized(rows[i].1@),
    ensures
        shift_lookup(rows).contains_key(normalized(rows[i].1@)),
        shift_lookup(rows)[normalized(rows[i].1@)] == rows[i].0,
    decreases rows.len(),
{
    if i < rows.len() - 1 {
        let rest = rows.drop_last();
        assert(rest[i] == rows[i]);
        assert forall|j: int| i < j < rest.len() implies normalized(#[trigger] rest[j].1@)
            != normalized(rest[i].1@) by {
            assert(rest[j] == rows[j]);
        }
        lemma_shift_last_row_wins(rest, i);
        assert(normalized(rows[rows.len() - 1].1@) != normalized(rows[i].1@));
    }
}

/// The code and the full name of the last staff row both lead to its id.
pub proof fn lemma_staff_found_by_code_and_name(rows: Seq<(i64, Option<String>, String)>)
    requires
        rows.len() > 0,
    ensures
        resolved(staff_lookup(rows), rows.last().2@) == Some(rows.last().0),
        rows.last().1 is Some ==> resolved(staff_lookup(rows), rows.last().1->Some_0@) == Some(
            rows.last().0,
        ),
{
}

} // verus!
