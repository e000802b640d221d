//! Lists in a given order. A list is put in order by placing its rows one
//! by one, each behind the rows that may stand before it, so rows that the
//! order does not tell apart stay as they stood.

use vstd::prelude::*;
use vstd::relations::{sorted_by, strongly_connected, transitive};

verus! {

/// The place of `x` among rows that are in order: behind every row that may
/// stand before it.
pub open spec fn place_of<T>(listed: Seq<T>, x: T, may_precede: spec_fn(T, T) -> bool) -> int
    decreases listed.len(),
{
    if listed.len() == 0 || !may_precede(listed[0], x) {
        0
    } else {
        1 + place_of(listed.drop_first(), x, may_precede)
    }
}

/// The rows put in order, one after the other.
pub open spec fn in_order<T>(rows: Seq<T>, may_precede: spec_fn(T, T) -> bool) -> Seq<T>
    decreases rows.len(),
{
    if rows.len() == 0 {
        rows
    } else {
        let listed = in_order(rows.drop_last(), may_precede);
        listed.insert(place_of(listed, rows.last(), may_precede), rows.last())
    }
}

/// The place of `x` is the first place behind rows that may all stand
/// before it, where the row that follows may not.
pub proof fn lemma_place_of<T>(
    listed: Seq<T>,
    x: T,
    may_precede: spec_fn(T, T) -> bool,
    place: int,
)
    requires
        0 <= place <= listed.len(),
        forall|k: int| 0 <= k < place ==> may_precede(#[trigger] listed[k], x),
        place == listed.len() || !may_precede(listed[place], x),
    ensures
        place_of(listed, x, may_precede) == place,
    decreases place,
{
    if place > 0 {
        let rest = listed.drop_first();
        assert(may_precede(listed[0], x));
        assert forall|k: int| 0 <= k < place - 1 implies may_precede(#[trigger] rest[k], x) by {
            assert(rest[k] == listed[k + 1]);
        }
        lemma_place_of(rest, x, may_precede, place - 1);
    }
}

/// Among rows in order, the place of `x` parts the rows that may stand
/// before `x` from those that may not.
pub proof fn lemma_place_of_parts<T>(listed: Seq<T>, x: T, may_precede: spec_fn(T, T) -> bool)
    requires
        sorted_by(listed, may_precede),
        transitive(may_precede),
    ensures
        0 <= place_of(listed, x, may_precede) <= listed.len(),
        forall|k: int|
            0 <= k < place_of(listed, x, may_precede) ==> may_precede(#[trigger] listed[k], x),
        forall|k: int|
            place_of(listed, x, may_precede) <= k < listed.len() ==> !may_precede(
                #[trigger] listed[k],
                x,
            ),
    decreases listed.len(),
{
    if listed.len() > 0 && may_precede(listed[0], x) {
        let rest = listed.drop_first();
        assert forall|i: int, j: int| 0 <= i < j < rest.len() implies #[trigger] may_precede(
            rest[i],
            rest[j],
        ) by {
            assert(may_precede(listed[i + 1], listed[j + 1]));
        }
        lemma_place_of_parts(rest, x, may_precede);
        let p = place_of(rest, x, may_precede);
        assert forall|k: int| 0 <= k < p + 1 implies may_precede(#[trigger] listed[k], x) by {
            if k > 0 {
                assert(rest[k - 1] == listed[k]);
            }
        }
        assert forall|k: int| p + 1 <= k < listed.len() implies !may_precede(
            #[trigger] listed[k],
            x,
        ) by {
            assert(rest[k - 1] == listed[k]);
        }
    } else if listed.len() > 0 {
        assert forall|k: int| 0 <= k < listed.len() implies !may_precede(
            #[trigger] listed[k],
            x,
        ) by {
            if k > 0 && may_precede(listed[k], x) {
                assert(may_precede(listed[0], listed[k]));
                assert(may_precede(listed[0], x));
            }
        }
    }
}

/// Rows put in order are in order, and they are the same rows, each as
/// often as before.
pub proof fn lemma_in_order<T>(rows: Seq<T>, may_precede: spec_fn(T, T) -> bool)
    requires
        transitive(may_precede),
        strongly_connected(may_precede),
    ensures
        sorted_by(in_order(rows, may_precede), may_precede),
        in_order(rows, may_precede).len() == rows.len(),
        in_order(rows, may_precede).to_multiset() == rows.to_multiset(),
    decreases rows.len(),
{
    broadcast use vstd::seq_lib::group_to_multiset_ensures;

    if rows.len() > 0 {
        let rest = rows.drop_last();
        let last = rows.last();
        let listed = in_order(rest, may_precede);
        lemma_in_order(rest, may_precede);
        lemma_place_of_parts(listed, last, may_precede);
        let p = place_of(listed, last, may_precede);
        let all = listed.insert(p, last);
        assert forall|i: int, j: int| 0 <= i < j < all.len() implies #[trigger] may_precede(
            all[i],
            all[j],
        ) by {
            if i < p && j < p {
                assert(may_precede(listed[i], listed[j]));
            } else if i < p && j == p {
                assert(may_precede(listed[i], last));
            } else if i < p {
                assert(may_precede(listed[i], listed[j - 1]));
            } else if i == p {
                assert(!may_precede(listed[j - 1], last));
                assert(may_precede(listed[j - 1], last) || may_precede(last, listed[j - 1]));
            } else {
                assert(may_precede(listed[i - 1], listed[j - 1]));
            }
        }
        assert(all.remove(p) =~= listed);
        assert(all[p] == last);
        assert(all.to_multiset().remove(last) == listed.to_multiset());
        assert(all.contains(last));
        assert(all.to_multiset() =~= listed.to_multiset().insert(last));
        assert(rest.push(last) =~= rows);
        assert(rows.to_multiset() =~= rest.to_multiset().insert(last));
    }
}

} // verus!
