//! What is computed from a sequence of rows: totals, bounds, gaps.

use crate::models::schedule_row::{RowType, ScheduleRow};
use crate::text::str_eq;
use vstd::prelude::*;

verus! {

/// A class of rows, for counting and for totals.
#[derive(Debug, Clone, Copy, PartialEq, Eq, Structural)]
pub enum RowClass {
    /// Trips in passenger service.
    Revenue,
    /// Pull-outs, pull-ins and empty runs.
    Deadhead,
    /// Revenue trips and deadheads together.
    Driving,
    /// Breaks and reliefs.
    BreakOrRelief,
}

/// Whether `row` belongs to `class`.
pub open spec fn in_class(row: ScheduleRow, class: RowClass) -> bool {
    match class {
        RowClass::Revenue => row.spec_is_revenue(),
        RowClass::Deadhead => row.spec_is_deadhead(),
        RowClass::Driving => row.spec_is_revenue() || row.spec_is_deadhead(),
        RowClass::BreakOrRelief => row.spec_is_break_or_relief(),
    }
}

/// Whether `row` belongs to `class`.
pub fn row_in_class(row: &ScheduleRow, class: RowClass) -> (r: bool)
    ensures
        r == in_class(*row, class),
{
    match class {
        RowClass::Revenue => row.is_revenue(),
        RowClass::Deadhead => row.is_deadhead(),
        RowClass::Driving => row.is_revenue() || row.is_deadhead(),
        RowClass::BreakOrRelief => row.is_break_or_relief(),
    }
}

/// How many rows of `s` belong to `class`.
pub open spec fn count_in_class(s: Seq<ScheduleRow>, class: RowClass) -> nat
    decreases s.len(),
{
    if s.len() == 0 {
        0
    } else {
        count_in_class(s.drop_last(), class) + if in_class(s.last(), class) {
            1nat
        } else {
            0nat
        }
    }
}

/// The durations of the rows of `class` in `s`, added up. A row without a
/// duration adds nothing.
pub open spec fn total_duration(s: Seq<ScheduleRow>, class: RowClass) -> nat
    decreases s.len(),
{
    if s.len() == 0 {
        0
    } else {
        total_duration(s.drop_last(), class) + if in_class(s.last(), class) {
            match s.last().spec_duration() {
                Some(d) => d as nat,
                None => 0nat,
            }
        } else {
            0nat
        }
    }
}

/// A total as a 32-bit number: totals above `u32::MAX` are given as `u32::MAX`.
pub open spec fn capped(n: nat) -> u32 {
    if n <= u32::MAX {
        n as u32
    } else {
        u32::MAX
    }
}

/// The smaller of two optional times; an absent one does not count.
pub open spec fn opt_min(a: Option<u32>, b: Option<u32>) -> Option<u32> {
    match (a, b) {
        (Some(x), Some(y)) => Some(if x <= y {
            x
        } else {
            y
        }),
        (Some(x), None) => Some(x),
        (None, y) => y,
    }
}

/// The larger of two optional times; an absent one does not count.
pub open spec fn opt_max(a: Option<u32>, b: Option<u32>) -> Option<u32> {
    match (a, b) {
        (Some(x), Some(y)) => Some(if x >= y {
            x
        } else {
            y
        }),
        (Some(x), None) => Some(x),
        (None, y) => y,
    }
}

/// The earliest known start among the rows of `s`.
pub open spec fn earliest_start(s: Seq<ScheduleRow>) -> Option<u32>
    decreases s.len(),
{
    if s.len() == 0 {
        None
    } else {
        opt_min(earliest_start(s.drop_last()), s.last().spec_start())
    }
}

/// The latest known end among the rows of `s`.
pub open spec fn latest_end(s: Seq<ScheduleRow>) -> Option<u32>
    decreases s.len(),
{
    if s.len() == 0 {
        None
    } else {
        opt_max(latest_end(s.drop_last()), s.last().spec_end())
    }
}

/// The earliest start is the start of one of the rows and no row starts
/// before it; it is absent exactly where no row has a known start.
pub proof fn lemma_earliest_start(s: Seq<ScheduleRow>)
    ensures
        earliest_start(s) is None <==> forall|i: int|
            0 <= i < s.len() ==> (#[trigger] s[i]).spec_start() is None,
        earliest_start(s) is Some ==> exists|i: int|
            0 <= i < s.len() && (#[trigger] s[i]).spec_start() == earliest_start(s),
        forall|i: int|
            0 <= i < s.len() && (#[trigger] s[i]).spec_start() is Some ==> earliest_start(s) is Some
                && earliest_start(s).unwrap() <= s[i].spec_start().unwrap(),
    decreases s.len(),
{
    if s.len() > 0 {
        let d = s.drop_last();
        lemma_earliest_start(d);
        assert forall|i: int| 0 <= i < d.len() implies #[trigger] d[i] == s[i] by {}
        if earliest_start(s) is Some {
            if earliest_start(s) == s.last().spec_start() {
                assert(s[s.len() - 1].spec_start() == earliest_start(s));
            } else {
                let i = choose|i: int|
                    0 <= i < d.len() && (#[trigger] d[i]).spec_start() == earliest_start(d);
                assert(s[i].spec_start() == earliest_start(s));
            }
        }
        assert forall|i: int|
            0 <= i < s.len() && (#[trigger] s[i]).spec_start() is Some implies earliest_start(s) is Some
            && earliest_start(s).unwrap() <= s[i].spec_start().unwrap() by {
            if i < d.len() {
                assert(d[i] == s[i]);
            }
        }
        if earliest_start(s) is None {
            assert forall|i: int| 0 <= i < s.len() implies (#[trigger] s[i]).spec_start() is None by {
                if i < d.len() {
                    assert(d[i] == s[i]);
                }
            }
        } else if earliest_start(d) is None && s.last().spec_start() is None {
            assert(false);
        }
    }
}

/// The latest end is the end of one of the rows and no row ends after it;
/// it is absent exactly where no row has a known end.
pub proof fn lemma_latest_end(s: Seq<ScheduleRow>)
    ensures
        latest_end(s) is None <==> forall|i: int|
            0 <= i < s.len() ==> (#[trigger] s[i]).spec_end() is None,
        latest_end(s) is Some ==> exists|i: int|
            0 <= i < s.len() && (#[trigger] s[i]).spec_end() == latest_end(s),
        forall|i: int|
            0 <= i < s.len() && (#[trigger] s[i]).spec_end() is Some ==> latest_end(s) is Some
                && latest_end(s).unwrap() >= s[i].spec_end().unwrap(),
    decreases s.len(),
{
    if s.len() > 0 {
        let d = s.drop_last();
        lemma_latest_end(d);
        assert forall|i: int| 0 <= i < d.len() implies #[trigger] d[i] == s[i] by {}
        if latest_end(s) is Some {
            if latest_end(s) == s.last().spec_end() {
                assert(s[s.len() - 1].spec_end() == latest_end(s));
            } else {
                let i = choose|i: int|
                    0 <= i < d.len() && (#[trigger] d[i]).spec_end() == latest_end(d);
                assert(s[i].spec_end() == latest_end(s));
            }
        }
        assert forall|i: int|
            0 <= i < s.len() && (#[trigger] s[i]).spec_end() is Some implies latest_end(s) is Some
            && latest_end(s).unwrap() >= s[i].spec_end().unwrap() by {
            if i < d.len() {
                assert(d[i] == s[i]);
            }
        }
        if latest_end(s) is None {
            assert forall|i: int| 0 <= i < s.len() implies (#[trigger] s[i]).spec_end() is None by {
                if i < d.len() {
                    assert(d[i] == s[i]);
                }
            }
        }
    }
}

/// The idle time between row `i` and the row behind it: the next start minus
/// this end, where both are known and the start is later.
pub open spec fn gap_after(s: Seq<ScheduleRow>, i: int) -> Option<u32> {
    if 0 <= i && i + 1 < s.len() {
        match (s[i].spec_end(), s[i + 1].spec_start()) {
            (Some(end), Some(start)) => if start > end {
                Some((start - end) as u32)
            } else {
                None
            },
            _ => None,
        }
    } else {
        None
    }
}

/// The gaps behind the rows `0..n` of `s`, each with the index of its row.
pub open spec fn gaps_before(s: Seq<ScheduleRow>, n: int) -> Seq<(usize, u32)>
    decreases n,
{
    if n <= 0 {
        Seq::empty()
    } else {
        match gap_after(s, n - 1) {
            Some(g) => gaps_before(s, n - 1).push(((n - 1) as usize, g)),
            None => gaps_before(s, n - 1),
        }
    }
}

/// Whether row `i` ends at a known place and the row behind it starts at
/// another known place.
pub open spec fn place_break_after(s: Seq<ScheduleRow>, i: int) -> bool {
    &&& 0 <= i
    &&& i + 1 < s.len()
    &&& s[i].end_place is Some
    &&& s[i + 1].start_place is Some
    &&& s[i].end_place.unwrap()@ != s[i + 1].start_place.unwrap()@
}

/// The indices below `n` of the rows behind which the place changes.
pub open spec fn place_breaks_before(s: Seq<ScheduleRow>, n: int) -> Seq<usize>
    decreases n,
{
    if n <= 0 {
        Seq::empty()
    } else if place_break_after(s, n - 1) {
        place_breaks_before(s, n - 1).push((n - 1) as usize)
    } else {
        place_breaks_before(s, n - 1)
    }
}

/// The first row of `s` of the kind `kind`.
pub open spec fn first_of_type(s: Seq<ScheduleRow>, kind: RowType) -> Option<ScheduleRow>
    decreases s.len(),
{
    if s.len() == 0 {
        None
    } else {
        match first_of_type(s.drop_last(), kind) {
            Some(r) => Some(r),
            None => if s.last().row_type == kind {
                Some(s.last())
            } else {
                None
            },
        }
    }
}

/// The last row of `s` of the kind `kind`.
pub open spec fn last_of_type(s: Seq<ScheduleRow>, kind: RowType) -> Option<ScheduleRow>
    decreases s.len(),
{
    if s.len() == 0 {
        None
    } else if s.last().row_type == kind {
        Some(s.last())
    } else {
        last_of_type(s.drop_last(), kind)
    }
}

/// The rows of `s` that belong to `class`, in their order.
pub open spec fn rows_in_class(s: Seq<ScheduleRow>, class: RowClass) -> Seq<ScheduleRow>
    decreases s.len(),
{
    if s.len() == 0 {
        Seq::empty()
    } else if in_class(s.last(), class) {
        rows_in_class(s.drop_last(), class).push(s.last())
    } else {
        rows_in_class(s.drop_last(), class)
    }
}

/// The rows of `s` of the kind `kind`, in their order.
pub open spec fn rows_of_type(s: Seq<ScheduleRow>, kind: RowType) -> Seq<ScheduleRow>
    decreases s.len(),
{
    if s.len() == 0 {
        Seq::empty()
    } else if s.last().row_type == kind {
        rows_of_type(s.drop_last(), kind).push(s.last())
    } else {
        rows_of_type(s.drop_last(), kind)
    }
}

/// The rows that a list of references points to.
pub open spec fn targets(v: Seq<&ScheduleRow>) -> Seq<ScheduleRow> {
    Seq::new(v.len(), |i: int| *v[i])
}

/// Whether a found row is the row that was to be found.
pub open spec fn same_row(found: Option<&ScheduleRow>, row: Option<ScheduleRow>) -> bool {
    match (found, row) {
        (Some(f), Some(r)) => *f == r,
        (None, None) => true,
        _ => false,
    }
}

/// The first `i + 1` rows are the first `i` rows and row `i` behind them.
pub(crate) proof fn lemma_take_step(s: Seq<ScheduleRow>, i: int)
    requires
        0 <= i < s.len(),
    ensures
        s.take(i + 1).drop_last() == s.take(i),
        s.take(i + 1).last() == s[i],
        s.take(i + 1).len() == i + 1,
{
    assert(s.take(i + 1).drop_last() =~= s.take(i));
}

/// How many rows belong to `class`.
pub fn count_rows(rows: &Vec<ScheduleRow>, class: RowClass) -> (r: usize)
    ensures
        r == count_in_class(rows@, class),
{
    let mut n: usize = 0;
    let mut i: usize = 0;
    while i < rows.len()
        invariant
            i <= rows.len(),
            n <= i,
            n == count_in_class(rows@.take(i as int), class),
        decreases rows.len() - i,
    {
        proof {
            lemma_take_step(rows@, i as int);
        }
        if row_in_class(&rows[i], class) {
            n = n + 1;
        }
        i = i + 1;
    }
    proof {
        assert(rows@.take(rows.len() as int) =~= rows@);
    }
    n
}

/// The rows that belong to `class`, in their order.
pub fn select_rows(rows: &Vec<ScheduleRow>, class: RowClass) -> (r: Vec<&ScheduleRow>)
    ensures
        targets(r@) == rows_in_class(rows@, class),
{
    let mut out: Vec<&ScheduleRow> = Vec::new();
    let mut i: usize = 0;
    proof {
        assert(targets(out@) =~= rows_in_class(rows@.take(0), class));
    }
    while i < rows.len()
        invariant
            i <= rows.len(),
            targets(out@) == rows_in_class(rows@.take(i as int), class),
        decreases rows.len() - i,
    {
        proof {
            lemma_take_step(rows@, i as int);
        }
        let ghost before = out@;
        if row_in_class(&rows[i], class) {
            out.push(&rows[i]);
            proof {
                assert(targets(out@) =~= targets(before).push(rows@[i as int]));
            }
        }
        i = i + 1;
    }
    proof {
        assert(rows@.take(rows.len() as int) =~= rows@);
    }
    out
}

/// The rows of the kind `kind`, in their order.
pub fn select_rows_of_type(rows: &Vec<ScheduleRow>, kind: RowType) -> (r: Vec<&ScheduleRow>)
    ensures
        targets(r@) == rows_of_type(rows@, kind),
{
    let mut out: Vec<&ScheduleRow> = Vec::new();
    let mut i: usize = 0;
    proof {
        assert(targets(out@) =~= rows_of_type(rows@.take(0), kind));
    }
    while i < rows.len()
        invariant
            i <= rows.len(),
            targets(out@) == rows_of_type(rows@.take(i as int), kind),
        decreases rows.len() - i,
    {
        proof {
            lemma_take_step(rows@, i as int);
        }
        let ghost before = out@;
        if rows[i].row_type == kind {
            out.push(&rows[i]);
            proof {
                assert(targets(out@) =~= targets(before).push(rows@[i as int]));
            }
        }
        i = i + 1;
    }
    proof {
        assert(rows@.take(rows.len() as int) =~= rows@);
    }
    out
}

/// The durations of the rows of `class`, added up and capped at `u32::MAX`.
pub fn sum_durations(rows: &Vec<ScheduleRow>, class: RowClass) -> (r: u32)
    ensures
        r == capped(total_duration(rows@, class)),
{
    let mut total: u64 = 0;
    let mut i: usize = 0;
    while i < rows.len()
        invariant
            i <= rows.len(),
            total <= u32::MAX,
            total == capped(total_duration(rows@.take(i as int), class)),
        decreases rows.len() - i,
    {
        proof {
            lemma_take_step(rows@, i as int);
        }
        if row_in_class(&rows[i], class) {
            match rows[i].duration_seconds() {
                Some(d) => {
                    total = total + d as u64;
                    if total > 0xffff_ffffu64 {
                        total = 0xffff_ffffu64;
                    }
                },
                None => {},
            }
        }
        i = i + 1;
    }
    proof {
        assert(rows@.take(rows.len() as int) =~= rows@);
    }
    total as u32
}

/// The earliest known start among the rows.
pub fn min_start(rows: &Vec<ScheduleRow>) -> (r: Option<u32>)
    ensures
        r == earliest_start(rows@),
{
    let mut best: Option<u32> = None;
    let mut i: usize = 0;
    while i < rows.len()
        invariant
            i <= rows.len(),
            best == earliest_start(rows@.take(i as int)),
        decreases rows.len() - i,
    {
        proof {
            lemma_take_step(rows@, i as int);
        }
        let t = rows[i].start_time_seconds();
        best = match (best, t) {
            (Some(x), Some(y)) => Some(if x <= y {
                x
            } else {
                y
            }),
            (Some(x), None) => Some(x),
            (None, y) => y,
        };
        i = i + 1;
    }
    proof {
        assert(rows@.take(rows.len() as int) =~= rows@);
    }
    best
}

/// The latest known end among the rows.
pub fn max_end(rows: &Vec<ScheduleRow>) -> (r: Option<u32>)
    ensures
        r == latest_end(rows@),
{
    let mut best: Option<u32> = None;
    let mut i: usize = 0;
    while i < rows.len()
        invariant
            i <= rows.len(),
            best == latest_end(rows@.take(i as int)),
        decreases rows.len() - i,
    {
        proof {
            lemma_take_step(rows@, i as int);
        }
        let t = rows[i].end_time_seconds();
        best = match (best, t) {
            (Some(x), Some(y)) => Some(if x >= y {
                x
            } else {
                y
            }),
            (Some(x), None) => Some(x),
            (None, y) => y,
        };
        i = i + 1;
    }
    proof {
        assert(rows@.take(rows.len() as int) =~= rows@);
    }
    best
}

/// The idle time between row `i` and the row behind it; none where there
/// is no such pair of rows.
pub fn gap_between(rows: &Vec<ScheduleRow>, i: usize) -> (r: Option<u32>)
    ensures
        r == gap_after(rows@, i as int),
{
    if rows.len() == 0 || i >= rows.len() - 1 {
        return None;
    }
    match (rows[i].end_time_seconds(), rows[i + 1].start_time_seconds()) {
        (Some(end), Some(start)) => if start > end {
            Some(start - end)
        } else {
            None
        },
        _ => None,
    }
}

/// The gaps between successive rows, each with the index of the row in front.
pub fn find_gaps_in(rows: &Vec<ScheduleRow>) -> (r: Vec<(usize, u32)>)
    ensures
        r@ == gaps_before(rows@, rows.len() - 1),
{
    let mut gaps: Vec<(usize, u32)> = Vec::new();
    if rows.len() == 0 {
        return gaps;
    }
    let last = rows.len() - 1;
    let mut i: usize = 0;
    while i < last
        invariant
            last == rows.len() - 1,
            i <= last,
            gaps@ == gaps_before(rows@, i as int),
        decreases last - i,
    {
        match gap_between(rows, i) {
            Some(g) => {
                gaps.push((i, g));
            },
            None => {},
        }
        i = i + 1;
    }
    gaps
}

/// Whether the place changes between row `i` and the row behind it.
pub fn place_changes(rows: &Vec<ScheduleRow>, i: usize) -> (r: bool)
    ensures
        r == place_break_after(rows@, i as int),
{
    if rows.len() == 0 || i >= rows.len() - 1 {
        return false;
    }
    match (&rows[i].end_place, &rows[i + 1].start_place) {
        (Some(end), Some(start)) => !str_eq(end.as_str(), start.as_str()),
        _ => false,
    }
}

/// The indices of the rows behind which the place changes.
pub fn find_place_breaks_in(rows: &Vec<ScheduleRow>) -> (r: Vec<usize>)
    ensures
        r@ == place_breaks_before(rows@, rows.len() - 1),
{
    let mut out: Vec<usize> = Vec::new();
    if rows.len() == 0 {
        return out;
    }
    let last = rows.len() - 1;
    let mut i: usize = 0;
    while i < last
        invariant
            last == rows.len() - 1,
            i <= last,
            out@ == place_breaks_before(rows@, i as int),
        decreases last - i,
    {
        if place_changes(rows, i) {
            out.push(i);
        }
        i = i + 1;
    }
    out
}

/// The first row of the kind `kind`.
pub fn find_first_of_type(rows: &Vec<ScheduleRow>, kind: RowType) -> (r: Option<&ScheduleRow>)
    ensures
        same_row(r, first_of_type(rows@, kind)),
{
    let mut i: usize = 0;
    while i < rows.len()
        invariant
            i <= rows.len(),
            first_of_type(rows@.take(i as int), kind) is None,
        decreases rows.len() - i,
    {
        proof {
            lemma_take_step(rows@, i as int);
        }
        if rows[i].row_type == kind {
            proof {
                lemma_first_of_type_prefix(rows@, kind, i as int + 1);
            }
            return Some(&rows[i]);
        }
        i = i + 1;
    }
    proof {
        assert(rows@.take(rows.len() as int) =~= rows@);
    }
    None
}

/// A row of the kind that is found in a prefix is the first in the whole.
proof fn lemma_first_of_type_prefix(s: Seq<ScheduleRow>, kind: RowType, n: int)
    requires
        0 <= n <= s.len(),
        first_of_type(s.take(n), kind) is Some,
    ensures
        first_of_type(s, kind) == first_of_type(s.take(n), kind),
    decreases s.len() - n,
{
    if n < s.len() {
        lemma_take_step(s, n);
        lemma_first_of_type_prefix(s, kind, n + 1);
    } else {
        assert(s.take(n) =~= s);
    }
}

/// The last row of the kind `kind`.
pub fn find_last_of_type(rows: &Vec<ScheduleRow>, kind: RowType) -> (r: Option<&ScheduleRow>)
    ensures
        same_row(r, last_of_type(rows@, kind)),
{
    let mut found: Option<&ScheduleRow> = None;
    let mut i: usize = 0;
    while i < rows.len()
        invariant
            i <= rows.len(),
            same_row(found, last_of_type(rows@.take(i as int), kind)),
        decreases rows.len() - i,
    {
        proof {
            lemma_take_step(rows@, i as int);
        }
        if rows[i].row_type == kind {
            found = Some(&rows[i]);
        }
        i = i + 1;
    }
    proof {
        assert(rows@.take(rows.len() as int) =~= rows@);
    }
    found
}

/// Copies a list of rows.
pub fn clone_rows(rows: &Vec<ScheduleRow>) -> (r: Vec<ScheduleRow>)
    ensures
        r@ == rows@,
{
    let mut out: Vec<ScheduleRow> = Vec::new();
    let mut i: usize = 0;
    while i < rows.len()
        invariant
            i <= rows.len(),
            out@ == rows@.take(i as int),
        decreases rows.len() - i,
    {
        out.push(rows[i].clone());
        proof {
            assert(out@ =~= rows@.take(i + 1));
        }
        i = i + 1;
    }
    proof {
        assert(rows@.take(rows.len() as int) =~= rows@);
    }
    out
}

} // verus!
