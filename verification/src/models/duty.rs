//! A driver's duty: the rows that one driver works through in a day.

use crate::models::block::first_known;
use crate::models::ids::{collect_ids, is_id_count, is_id_list, RowKey};
use crate::models::row_seq::{
    capped, clone_rows, earliest_start, gap_after, gap_between, latest_end, lemma_take_step,
    max_end, min_start, rows_of_type, select_rows_of_type, sum_durations, targets,
    total_duration, RowClass,
};
use crate::models::schedule_row::{RowType, ScheduleRow};
use crate::models::shift::{Break, Shift};
use crate::models::time_order::{sort_by_start, sorted_by_start};
use crate::text::clone_opt;
use crate::time::{duration_between, parse_opt_time, spec_duration, spec_parse_opt_time};
use vstd::prelude::*;

verus! {

/// The rows that share a duty identifier, or a run number where they name
/// no duty.
#[derive(Debug)]
pub struct Duty {
    /// The duty's identifier.
    pub duty_id: String,
    /// The rows of the duty.
    pub rows: Vec<ScheduleRow>,
    /// The run number, from the first row that has one.
    pub run_number: Option<String>,
    /// The depot, from the first row that has one.
    pub depot: Option<String>,
    /// When the driver signs on; overrides the earliest start of a row.
    pub sign_on_time: Option<String>,
    /// When the driver signs off; overrides the latest end of a row.
    pub sign_off_time: Option<String>,
}

/// A piece of work: rows that follow one another without a break or relief.
#[derive(Debug)]
pub struct PieceOfWork {
    /// The rows of the piece; never empty.
    pub rows: Vec<ScheduleRow>,
    /// The start of the first row.
    pub start_time_seconds: Option<u32>,
    /// The latest known end of a row: a row moves the end of the piece
    /// forward, never back.
    pub end_time_seconds: Option<u32>,
}

/// Figures that sum up a duty.
#[derive(Debug)]
pub struct DutySummary {
    pub duty_id: String,
    pub total_rows: usize,
    pub duration_seconds: Option<u32>,
    pub driving_time_seconds: u32,
    pub break_time_seconds: u32,
    pub pieces_of_work: usize,
    pub blocks_worked: usize,
}

/// The rows of `s` cut into pieces: every break or relief ends a piece and
/// belongs to none, and every other row belongs to the piece of the row in
/// front of it, or starts one.
pub open spec fn piece_rows(s: Seq<ScheduleRow>) -> Seq<Seq<ScheduleRow>>
    decreases s.len(),
{
    if s.len() == 0 {
        Seq::empty()
    } else {
        let prev = piece_rows(s.drop_last());
        if s.last().spec_is_break_or_relief() {
            prev
        } else if s.len() >= 2 && !s[s.len() - 2].spec_is_break_or_relief() {
            prev.update(prev.len() - 1, prev.last().push(s.last()))
        } else {
            prev.push(seq![s.last()])
        }
    }
}

/// Whether `piece` is the piece of work made of `rows`.
pub open spec fn is_piece(piece: PieceOfWork, rows: Seq<ScheduleRow>) -> bool {
    &&& rows.len() > 0
    &&& piece.rows@ == rows
    &&& piece.start_time_seconds == rows[0].spec_start()
    &&& piece.end_time_seconds == latest_end(rows)
}

/// Whether `pieces` are the pieces of work made of `cut`, one for one.
pub open spec fn are_pieces(pieces: Seq<PieceOfWork>, cut: Seq<Seq<ScheduleRow>>) -> bool {
    &&& pieces.len() == cut.len()
    &&& forall|k: int| 0 <= k < pieces.len() ==> is_piece(#[trigger] pieces[k], cut[k])
}

/// Whether a gap of at least `min_gap` seconds lies between two successive rows.
pub open spec fn has_long_gap(s: Seq<ScheduleRow>, min_gap: u32) -> bool {
    exists|i: int|
        0 <= i < s.len() - 1 && (#[trigger] gap_after(s, i)) is Some && gap_after(s, i).unwrap()
            >= min_gap
}

/// The breaks of a shift that the rows give: one for each row of kind
/// `Break` whose start and end are known, unpaid, at the row's start place.
pub open spec fn shift_breaks(s: Seq<ScheduleRow>) -> Seq<Break>
    decreases s.len(),
{
    if s.len() == 0 {
        Seq::empty()
    } else {
        let row = s.last();
        if row.row_type == RowType::Break && row.spec_start() is Some && row.spec_end() is Some {
            shift_breaks(s.drop_last()).push(
                Break {
                    start_time_seconds: row.spec_start().unwrap(),
                    end_time_seconds: row.spec_end().unwrap(),
                    location: row.start_place,
                    is_paid: false,
                },
            )
        } else {
            shift_breaks(s.drop_last())
        }
    }
}

/// After a row that is no break, the cut has a last piece, and it ends
/// with that row.
pub proof fn lemma_piece_rows_open(s: Seq<ScheduleRow>)
    requires
        s.len() > 0,
        !s.last().spec_is_break_or_relief(),
    ensures
        piece_rows(s).len() > 0,
        piece_rows(s).last().len() > 0,
        piece_rows(s).last().last() == s.last(),
    decreases s.len(),
{
    if s.len() >= 2 && !s[s.len() - 2].spec_is_break_or_relief() {
        assert(s.drop_last().last() == s[s.len() - 2]);
        lemma_piece_rows_open(s.drop_last());
    }
}

/// Every piece has a row, and no piece holds a break or a relief.
pub proof fn lemma_pieces_hold_no_break(s: Seq<ScheduleRow>)
    ensures
        forall|k: int|
            0 <= k < piece_rows(s).len() ==> (#[trigger] piece_rows(s)[k]).len() > 0 && forall|
                j: int,
            |
                0 <= j < piece_rows(s)[k].len() ==> !(
                #[trigger] piece_rows(s)[k][j]).spec_is_break_or_relief(),
    decreases s.len(),
{
    if s.len() > 0 {
        let prev = piece_rows(s.drop_last());
        lemma_pieces_hold_no_break(s.drop_last());
        if s.last().spec_is_break_or_relief() {
        } else if s.len() >= 2 && !s[s.len() - 2].spec_is_break_or_relief() {
            assert(s.drop_last().last() == s[s.len() - 2]);
            lemma_piece_rows_open(s.drop_last());
            let cut = piece_rows(s);
            assert forall|k: int| 0 <= k < cut.len() implies (#[trigger] cut[k]).len() > 0
                && forall|j: int|
                0 <= j < cut[k].len() ==> !(#[trigger] cut[k][j]).spec_is_break_or_relief() by {
                if k < cut.len() - 1 {
                    assert(cut[k] == prev[k]);
                } else {
                    let grown = prev.last().push(s.last());
                    assert(cut[k] == grown);
                    assert forall|j: int| 0 <= j < grown.len() implies !(
                    #[trigger] grown[j]).spec_is_break_or_relief() by {
                        if j < prev.last().len() {
                            assert(grown[j] == prev.last()[j]);
                        }
                    }
                }
            }
        } else {
            let cut = piece_rows(s);
            assert forall|k: int| 0 <= k < cut.len() implies (#[trigger] cut[k]).len() > 0
                && forall|j: int|
                0 <= j < cut[k].len() ==> !(#[trigger] cut[k][j]).spec_is_break_or_relief() by {
                if k < cut.len() - 1 {
                    assert(cut[k] == prev[k]);
                }
            }
        }
    }
}

impl Clone for Duty {
    fn clone(&self) -> (r: Self)
        ensures
            r.duty_id == self.duty_id,
            r.rows@ == self.rows@,
            r.run_number == self.run_number,
            r.depot == self.depot,
            r.sign_on_time == self.sign_on_time,
            r.sign_off_time == self.sign_off_time,
    {
        Duty {
            duty_id: self.duty_id.clone(),
            rows: clone_rows(&self.rows),
            run_number: clone_opt(&self.run_number),
            depot: clone_opt(&self.depot),
            sign_on_time: clone_opt(&self.sign_on_time),
            sign_off_time: clone_opt(&self.sign_off_time),
        }
    }
}

impl PieceOfWork {
    /// The end minus the start, where both are known and in order.
    pub open spec fn spec_duration(&self) -> Option<u32> {
        spec_duration(self.start_time_seconds, self.end_time_seconds)
    }

    /// The length of the piece in seconds.
    pub fn duration_seconds(&self) -> (r: Option<u32>)
        ensures
            r == self.spec_duration(),
    {
        duration_between(self.start_time_seconds, self.end_time_seconds)
    }
}

impl Duty {
    /// The sign-on time where it denotes a time, else the earliest known
    /// start of a row.
    pub open spec fn spec_start(&self) -> Option<u32> {
        match spec_parse_opt_time(self.sign_on_time) {
            Some(t) => Some(t),
            None => earliest_start(self.rows@),
        }
    }

    /// The sign-off time where it denotes a time, else the latest known end
    /// of a row.
    pub open spec fn spec_end(&self) -> Option<u32> {
        match spec_parse_opt_time(self.sign_off_time) {
            Some(t) => Some(t),
            None => latest_end(self.rows@),
        }
    }

    /// From the start of the duty to its end.
    pub open spec fn spec_duration(&self) -> Option<u32> {
        spec_duration(self.spec_start(), self.spec_end())
    }

    /// A duty without rows.
    pub fn new(duty_id: String) -> (r: Self)
        ensures
            r.duty_id == duty_id,
            r.rows@.len() == 0,
            r.run_number is None,
            r.depot is None,
            r.sign_on_time is None,
            r.sign_off_time is None,
    {
        Duty {
            duty_id,
            rows: Vec::new(),
            run_number: None,
            depot: None,
            sign_on_time: None,
            sign_off_time: None,
        }
    }

    /// Adds a row behind the others. Run number and depot are taken from
    /// the row where the duty has none yet.
    pub fn add_row(&mut self, row: ScheduleRow)
        ensures
            final(self).duty_id == old(self).duty_id,
            final(self).rows@ == old(self).rows@.push(row),
            final(self).run_number == first_known(old(self).run_number, row.run_number),
            final(self).depot == first_known(old(self).depot, row.depot),
            final(self).sign_on_time == old(self).sign_on_time,
            final(self).sign_off_time == old(self).sign_off_time,
    {
        if self.run_number.is_none() {
            self.run_number = clone_opt(&row.run_number);
        }
        if self.depot.is_none() {
            self.depot = clone_opt(&row.depot);
        }
        self.rows.push(row);
    }

    /// Puts the rows in the order of their start times, stably; a row
    /// without a known start counts as starting at 0.
    pub fn sort_rows_by_time(&mut self)
        ensures
            final(self).rows@ == sorted_by_start(old(self).rows@),
            final(self).duty_id == old(self).duty_id,
            final(self).run_number == old(self).run_number,
            final(self).depot == old(self).depot,
            final(self).sign_on_time == old(self).sign_on_time,
            final(self).sign_off_time == old(self).sign_off_time,
    {
        sort_by_start(&mut self.rows);
    }

    /// The number of rows.
    pub fn len(&self) -> (r: usize)
        ensures
            r == self.rows@.len(),
    {
        self.rows.len()
    }

    /// Whether the duty has no rows.
    pub fn is_empty(&self) -> (r: bool)
        ensures
            r == (self.rows@.len() == 0),
    {
        self.rows.len() == 0
    }

    /// When the duty starts: the sign-on time, else the earliest start of a row.
    pub fn start_time_seconds(&self) -> (r: Option<u32>)
        ensures
            r == self.spec_start(),
    {
        match parse_opt_time(&self.sign_on_time) {
            Some(t) => Some(t),
            None => min_start(&self.rows),
        }
    }

    /// When the duty ends: the sign-off time, else the latest end of a row.
    pub fn end_time_seconds(&self) -> (r: Option<u32>)
        ensures
            r == self.spec_end(),
    {
        match parse_opt_time(&self.sign_off_time) {
            Some(t) => Some(t),
            None => max_end(&self.rows),
        }
    }

    /// The length of the duty in seconds.
    pub fn duration_seconds(&self) -> (r: Option<u32>)
        ensures
            r == self.spec_duration(),
    {
        duration_between(self.start_time_seconds(), self.end_time_seconds())
    }

    /// The driving time: revenue trips and deadheads, capped at `u32::MAX`.
    pub fn driving_time_seconds(&self) -> (r: u32)
        ensures
            r == capped(total_duration(self.rows@, RowClass::Driving)),
    {
        sum_durations(&self.rows, RowClass::Driving)
    }

    /// The time on breaks and reliefs, capped at `u32::MAX`.
    pub fn break_time_seconds(&self) -> (r: u32)
        ensures
            r == capped(total_duration(self.rows@, RowClass::BreakOrRelief)),
    {
        sum_durations(&self.rows, RowClass::BreakOrRelief)
    }

    /// The rows of kind `Break`, in their order.
    pub fn breaks(&self) -> (r: Vec<&ScheduleRow>)
        ensures
            targets(r@) == rows_of_type(self.rows@, RowType::Break),
    {
        select_rows_of_type(&self.rows, RowType::Break)
    }

    /// The rows of kind `Relief`, in their order.
    pub fn reliefs(&self) -> (r: Vec<&ScheduleRow>)
        ensures
            targets(r@) == rows_of_type(self.rows@, RowType::Relief),
    {
        select_rows_of_type(&self.rows, RowType::Relief)
    }

    /// The blocks that the duty works on, each once, in rising order.
    pub fn block_ids(&self) -> (r: Vec<String>)
        ensures
            is_id_list(r@, self.rows@, RowKey::Block),
    {
        collect_ids(&self.rows, RowKey::Block)
    }

    /// Whether two successive rows lie at least `min_gap_seconds` apart.
    /// Nothing is kept of the answer: it is computed from the rows each time.
    pub fn is_split_duty(&self, min_gap_seconds: u32) -> (r: bool)
        ensures
            r == has_long_gap(self.rows@, min_gap_seconds),
    {
        if self.rows.len() == 0 {
            return false;
        }
        let last = self.rows.len() - 1;
        let mut i: usize = 0;
        while i < last
            invariant
                last == self.rows.len() - 1,
                i <= last,
                forall|k: int|
                    0 <= k < i ==> !((#[trigger] gap_after(self.rows@, k)) is Some && gap_after(
                        self.rows@,
                        k,
                    ).unwrap() >= min_gap_seconds),
            decreases last - i,
        {
            match gap_between(&self.rows, i) {
                Some(g) => {
                    if g >= min_gap_seconds {
                        return true;
                    }
                },
                None => {},
            }
            i = i + 1;
        }
        false
    }

    /// The pieces of work: the rows between breaks and reliefs. A piece
    /// starts when its first row starts and ends with the latest known end
    /// of its rows. A duty without rows has none.
    pub fn pieces_of_work(&self) -> (r: Vec<PieceOfWork>)
        ensures
            are_pieces(r@, piece_rows(self.rows@)),
    {
        let mut pieces: Vec<PieceOfWork> = Vec::new();
        let mut current: Option<PieceOfWork> = None;
        let mut i: usize = 0;
        while i < self.rows.len()
            invariant
                i <= self.rows.len(),
                current is Some <==> (i > 0 && !self.rows@[i - 1].spec_is_break_or_relief()),
                current is Some ==> {
                    let cut = piece_rows(self.rows@.take(i as int));
                    &&& cut.len() > 0
                    &&& is_piece(current.unwrap(), cut.last())
                    &&& are_pieces(pieces@, cut.drop_last())
                },
                current is None ==> are_pieces(pieces@, piece_rows(self.rows@.take(i as int))),
            decreases self.rows.len() - i,
        {
            let row = &self.rows[i];
            let ghost prefix = self.rows@.take(i as int);
            let ghost next = self.rows@.take(i + 1);
            let ghost cut = piece_rows(prefix);
            let ghost done = pieces@;
            proof {
                lemma_take_step(self.rows@, i as int);
                if i > 0 {
                    assert(next[next.len() - 2] == self.rows@[i - 1]);
                    assert(prefix.last() == self.rows@[i - 1]);
                }
            }
            if row.is_break_or_relief() {
                match current.take() {
                    Some(piece) => {
                        pieces.push(piece);
                        proof {
                            assert(cut =~= cut.drop_last().push(cut.last()));
                            assert forall|k: int| 0 <= k < pieces@.len() implies is_piece(
                                #[trigger] pieces@[k],
                                cut[k],
                            ) by {
                                if k < done.len() {
                                    assert(pieces@[k] == done[k]);
                                    assert(cut.drop_last()[k] == cut[k]);
                                }
                            }
                        }
                    },
                    None => {},
                }
            } else {
                match current.take() {
                    Some(piece) => {
                        let mut piece = piece;
                        let ghost old_rows = piece.rows@;
                        piece.rows.push(row.clone());
                        piece.end_time_seconds = match (piece.end_time_seconds, row.end_time_seconds()) {
                            (Some(x), Some(y)) => Some(if x >= y {
                                x
                            } else {
                                y
                            }),
                            (Some(x), None) => Some(x),
                            (None, y) => y,
                        };
                        proof {
                            let grown = cut.last().push(*row);
                            assert(grown.drop_last() =~= cut.last());
                            assert(grown[0] == cut.last()[0]);
                            let new_cut = piece_rows(next);
                            assert(new_cut == cut.update(cut.len() - 1, grown));
                            assert(new_cut.drop_last() =~= cut.drop_last());
                        }
                        current = Some(piece);
                    },
                    None => {
                        let mut rows: Vec<ScheduleRow> = Vec::new();
                        rows.push(row.clone());
                        proof {
                            let single = seq![*row];
                            assert(rows@ =~= single);
                            assert(single.drop_last() =~= Seq::<ScheduleRow>::empty());
                            assert(latest_end(single.drop_last()) is None);
                            let new_cut = piece_rows(next);
                            assert(new_cut == cut.push(single));
                            assert(new_cut.drop_last() =~= cut);
                        }
                        current = Some(
                            PieceOfWork {
                                rows,
                                start_time_seconds: row.start_time_seconds(),
                                end_time_seconds: row.end_time_seconds(),
                            },
                        );
                    },
                }
            }
            i = i + 1;
        }
        proof {
            assert(self.rows@.take(self.rows.len() as int) =~= self.rows@);
        }
        let ghost cut = piece_rows(self.rows@);
        let ghost done = pieces@;
        match current {
            Some(piece) => {
                pieces.push(piece);
                proof {
                    assert(cut =~= cut.drop_last().push(cut.last()));
                    assert forall|k: int| 0 <= k < pieces@.len() implies is_piece(
                        #[trigger] pieces@[k],
                        cut[k],
                    ) by {
                        if k < done.len() {
                            assert(pieces@[k] == done[k]);
                            assert(cut.drop_last()[k] == cut[k]);
                        }
                    }
                }
            },
            None => {},
        }
        pieces
    }

    /// The shift that the duty stands for: its bounds are the duty's start
    /// and end, its breaks the rows of kind `Break` with known times.
    pub fn to_shift(&self) -> (r: Shift)
        ensures
            r.shift_id == self.duty_id,
            r.duty_id == self.duty_id,
            r.sign_on_seconds == self.spec_start(),
            r.sign_off_seconds == self.spec_end(),
            r.breaks@ == shift_breaks(self.rows@),
            r.depot == self.depot,
    {
        let mut breaks: Vec<Break> = Vec::new();
        let mut i: usize = 0;
        while i < self.rows.len()
            invariant
                i <= self.rows.len(),
                breaks@ == shift_breaks(self.rows@.take(i as int)),
            decreases self.rows.len() - i,
        {
            proof {
                lemma_take_step(self.rows@, i as int);
            }
            let row = &self.rows[i];
            if row.row_type == RowType::Break {
                match (row.start_time_seconds(), row.end_time_seconds()) {
                    (Some(start), Some(end)) => {
                        breaks.push(
                            Break {
                                start_time_seconds: start,
                                end_time_seconds: end,
                                location: clone_opt(&row.start_place),
                                is_paid: false,
                            },
                        );
                    },
                    _ => {},
                }
            }
            i = i + 1;
        }
        proof {
            assert(self.rows@.take(self.rows.len() as int) =~= self.rows@);
        }
        Shift {
            shift_id: self.duty_id.clone(),
            duty_id: self.duty_id.clone(),
            sign_on_seconds: self.start_time_seconds(),
            sign_off_seconds: self.end_time_seconds(),
            breaks,
            depot: clone_opt(&self.depot),
        }
    }

    /// The figures that sum up the duty.
    pub fn summary(&self) -> (r: DutySummary)
        ensures
            r.duty_id == self.duty_id,
            r.total_rows == self.rows@.len(),
            r.duration_seconds == self.spec_duration(),
            r.driving_time_seconds == capped(total_duration(self.rows@, RowClass::Driving)),
            r.break_time_seconds == capped(total_duration(self.rows@, RowClass::BreakOrRelief)),
            r.pieces_of_work == piece_rows(self.rows@).len(),
            is_id_count(r.blocks_worked, self.rows@, RowKey::Block),
    {
        let ids = self.block_ids();
        DutySummary {
            duty_id: self.duty_id.clone(),
            total_rows: self.rows.len(),
            duration_seconds: self.duration_seconds(),
            driving_time_seconds: self.driving_time_seconds(),
            break_time_seconds: self.break_time_seconds(),
            pieces_of_work: self.pieces_of_work().len(),
            blocks_worked: ids.len(),
        }
    }
}

} // verus!
