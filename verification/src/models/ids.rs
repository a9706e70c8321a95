//! The identifiers that occur in a sequence of rows, each once, in rising
//! order, and the rows that carry one of them.

use crate::models::schedule_row::ScheduleRow;
use crate::models::block::first_known;
use crate::text::{clone_opt, has_id, insert_sorted_unique, opt_str_is, strictly_sorted};
use vstd::prelude::*;

verus! {

/// A text field of a row: an identifier that rows are grouped by, or what a
/// group takes from its rows.
#[derive(Debug, Clone, Copy, PartialEq, Eq, Structural)]
pub enum RowKey {
    /// The vehicle's block.
    Block,
    /// The driver's run.
    Run,
    /// The depot.
    Depot,
    /// The trip, on revenue rows only.
    RevenueTrip,
    /// The duty, and where the row names none, the run.
    Duty,
    /// The class of vehicle.
    VehicleClass,
    /// The type of vehicle.
    VehicleType,
}

/// The identifier of the kind `key` that `row` carries.
pub open spec fn key_of(row: ScheduleRow, key: RowKey) -> Option<String> {
    match key {
        RowKey::Block => row.block,
        RowKey::Run => row.run_number,
        RowKey::Depot => row.depot,
        RowKey::RevenueTrip => if row.spec_is_revenue() {
            row.trip_id
        } else {
            None
        },
        RowKey::Duty => if row.duty_id is Some {
            row.duty_id
        } else {
            row.run_number
        },
        RowKey::VehicleClass => row.vehicle_class,
        RowKey::VehicleType => row.vehicle_type,
    }
}

/// Whether `row` carries the identifier `id` under `key`.
pub open spec fn has_key(row: ScheduleRow, key: RowKey, id: Seq<char>) -> bool {
    key_of(row, key) is Some && key_of(row, key).unwrap()@ == id
}

/// Whether one of the rows carries the identifier `id` under `key`.
pub open spec fn occurs(rows: Seq<ScheduleRow>, key: RowKey, id: Seq<char>) -> bool {
    exists|i: int| 0 <= i < rows.len() && has_key(#[trigger] rows[i], key, id)
}

/// Whether `ids` holds the identifiers that the rows carry under `key`,
/// each once, in rising order.
pub open spec fn is_id_list(ids: Seq<String>, rows: Seq<ScheduleRow>, key: RowKey) -> bool {
    &&& strictly_sorted(ids)
    &&& forall|s: Seq<char>| has_id(ids, s) <==> occurs(rows, key, s)
}

/// Whether `n` is the number of different identifiers that the rows carry
/// under `key`.
pub open spec fn is_id_count(n: usize, rows: Seq<ScheduleRow>, key: RowKey) -> bool {
    exists|ids: Seq<String>| is_id_list(ids, rows, key) && ids.len() == n
}

/// The identifier of the kind `key` that `row` carries.
pub fn row_key(row: &ScheduleRow, key: RowKey) -> (r: &Option<String>)
    ensures
        *r == key_of(*row, key),
{
    match key {
        RowKey::Block => &row.block,
        RowKey::Run => &row.run_number,
        RowKey::Depot => &row.depot,
        RowKey::RevenueTrip => if row.is_revenue() {
            &row.trip_id
        } else {
            &None
        },
        RowKey::Duty => if row.duty_id.is_some() {
            &row.duty_id
        } else {
            &row.run_number
        },
        RowKey::VehicleClass => &row.vehicle_class,
        RowKey::VehicleType => &row.vehicle_type,
    }
}

/// The rows that carry the identifier `id` under `key`, in their order.
pub open spec fn rows_with_key(rows: Seq<ScheduleRow>, key: RowKey, id: Seq<char>) -> Seq<
    ScheduleRow,
>
    decreases rows.len(),
{
    if rows.len() == 0 {
        Seq::empty()
    } else if has_key(rows.last(), key, id) {
        rows_with_key(rows.drop_last(), key, id).push(rows.last())
    } else {
        rows_with_key(rows.drop_last(), key, id)
    }
}

/// The value under `key` of the first row that has one.
pub open spec fn first_value(rows: Seq<ScheduleRow>, key: RowKey) -> Option<String>
    decreases rows.len(),
{
    if rows.len() == 0 {
        None
    } else {
        first_known(first_value(rows.drop_last(), key), key_of(rows.last(), key))
    }
}

/// Copies of the rows that carry the identifier `id` under `key`, in their order.
pub fn collect_group(rows: &Vec<ScheduleRow>, key: RowKey, id: &str) -> (r: Vec<ScheduleRow>)
    ensures
        r@ == rows_with_key(rows@, key, id@),
{
    let mut out: Vec<ScheduleRow> = Vec::new();
    let mut i: usize = 0;
    while i < rows.len()
        invariant
            i <= rows.len(),
            out@ == rows_with_key(rows@.take(i as int), key, id@),
        decreases rows.len() - i,
    {
        proof {
            assert(rows@.take(i + 1).drop_last() =~= rows@.take(i as int));
        }
        if opt_str_is(row_key(&rows[i], key), id) {
            out.push(rows[i].clone());
        }
        i = i + 1;
    }
    proof {
        assert(rows@.take(rows.len() as int) =~= rows@);
    }
    out
}

/// The rows that carry the identifier `id` under `key`, in their order.
pub fn select_group<'a>(rows: &'a Vec<ScheduleRow>, key: RowKey, id: &str) -> (r: Vec<
    &'a ScheduleRow,
>)
    ensures
        crate::models::row_seq::targets(r@) == rows_with_key(rows@, key, id@),
{
    let mut out: Vec<&ScheduleRow> = Vec::new();
    let mut i: usize = 0;
    proof {
        assert(crate::models::row_seq::targets(out@) =~= rows_with_key(rows@.take(0), key, id@));
    }
    while i < rows.len()
        invariant
            i <= rows.len(),
            crate::models::row_seq::targets(out@) == rows_with_key(
                rows@.take(i as int),
                key,
                id@,
            ),
        decreases rows.len() - i,
    {
        proof {
            assert(rows@.take(i + 1).drop_last() =~= rows@.take(i as int));
        }
        let ghost before = out@;
        if opt_str_is(row_key(&rows[i], key), id) {
            out.push(&rows[i]);
            proof {
                assert(crate::models::row_seq::targets(out@) =~= crate::models::row_seq::targets(
                    before,
                ).push(rows@[i as int]));
            }
        }
        i = i + 1;
    }
    proof {
        assert(rows@.take(rows.len() as int) =~= rows@);
    }
    out
}

/// The value under `key` of the first row that has one.
pub fn first_value_of(rows: &Vec<ScheduleRow>, key: RowKey) -> (r: Option<String>)
    ensures
        r == first_value(rows@, key),
{
    let mut i: usize = 0;
    while i < rows.len()
        invariant
            i <= rows.len(),
            first_value(rows@.take(i as int), key) is None,
        decreases rows.len() - i,
    {
        proof {
            assert(rows@.take(i + 1).drop_last() =~= rows@.take(i as int));
        }
        let v = row_key(&rows[i], key);
        if v.is_some() {
            proof {
                lemma_first_value_prefix(rows@, key, i as int + 1);
            }
            return clone_opt(v);
        }
        i = i + 1;
    }
    proof {
        assert(rows@.take(rows.len() as int) =~= rows@);
    }
    None
}

/// A value that is found in a prefix of the rows is the first in all of them.
proof fn lemma_first_value_prefix(rows: Seq<ScheduleRow>, key: RowKey, n: int)
    requires
        0 <= n <= rows.len(),
        first_value(rows.take(n), key) is Some,
    ensures
        first_value(rows, key) == first_value(rows.take(n), key),
    decreases rows.len() - n,
{
    if n < rows.len() {
        assert(rows.take(n + 1).drop_last() =~= rows.take(n));
        lemma_first_value_prefix(rows, key, n + 1);
    } else {
        assert(rows.take(n) =~= rows);
    }
}

/// The identifiers that the rows carry under `key`, each once, in the
/// order of `str`.
pub fn collect_ids(rows: &Vec<ScheduleRow>, key: RowKey) -> (r: Vec<String>)
    ensures
        is_id_list(r@, rows@, key),
{
    let mut ids: Vec<String> = Vec::new();
    let mut i: usize = 0;
    proof {
        assert forall|s: Seq<char>| has_id(ids@, s) <==> occurs(rows@.take(0), key, s) by {}
    }
    while i < rows.len()
        invariant
            i <= rows.len(),
            strictly_sorted(ids@),
            forall|s: Seq<char>| has_id(ids@, s) <==> occurs(rows@.take(i as int), key, s),
        decreases rows.len() - i,
    {
        let ghost before = ids@;
        let ghost prefix = rows@.take(i as int);
        let ghost next = rows@.take(i + 1);
        match row_key(&rows[i], key) {
            Some(id) => {
                insert_sorted_unique(&mut ids, id.clone());
            },
            None => {},
        }
        proof {
            assert forall|s: Seq<char>| has_id(ids@, s) <==> occurs(next, key, s) by {
                if occurs(next, key, s) {
                    let k = choose|k: int| 0 <= k < next.len() && has_key(#[trigger] next[k], key, s);
                    if k < i {
                        assert(prefix[k] == next[k]);
                        assert(occurs(prefix, key, s));
                    }
                }
                if occurs(prefix, key, s) {
                    let k = choose|k: int|
                        0 <= k < prefix.len() && has_key(#[trigger] prefix[k], key, s);
                    assert(next[k] == prefix[k]);
                }
                if has_key(rows@[i as int], key, s) {
                    assert(next[i as int] == rows@[i as int]);
                }
            }
        }
        i = i + 1;
    }
    proof {
        assert(rows@.take(rows.len() as int) =~= rows@);
    }
    ids
}

} // verus!
