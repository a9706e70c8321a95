//! A driver's shift: from sign-on to sign-off, with its breaks.

use crate::models::row_seq::capped;
use crate::models::time_order::{lemma_sorted_by_start, sort_by_start, sorted_by_start, Timed};
use crate::text::clone_opt;
use crate::time::{duration_between, spec_duration};
use vstd::prelude::*;
use vstd::string::*;

verus! {

/// A break within a shift.
#[derive(Debug)]
pub struct Break {
    /// Start, in seconds past midnight.
    pub start_time_seconds: u32,
    /// End, in seconds past midnight.
    pub end_time_seconds: u32,
    /// Where the break is taken.
    pub location: Option<String>,
    /// Whether the break is paid.
    pub is_paid: bool,
}

impl Clone for Break {
    fn clone(&self) -> (r: Self)
        ensures
            r == *self,
    {
        Break {
            start_time_seconds: self.start_time_seconds,
            end_time_seconds: self.end_time_seconds,
            location: clone_opt(&self.location),
            is_paid: self.is_paid,
        }
    }
}

/// A shift: the whole time a driver is on duty.
#[derive(Debug)]
pub struct Shift {
    /// The shift's identifier.
    pub shift_id: String,
    /// The duty it belongs to.
    pub duty_id: String,
    /// Sign-on, in seconds past midnight.
    pub sign_on_seconds: Option<u32>,
    /// Sign-off, in seconds past midnight.
    pub sign_off_seconds: Option<u32>,
    /// The breaks, in the order they were added.
    pub breaks: Vec<Break>,
    /// The depot where the shift starts and ends.
    pub depot: Option<String>,
}

/// Figures that sum up a shift.
#[derive(Debug)]
pub struct ShiftSummary {
    pub shift_id: String,
    pub total_duration_seconds: Option<u32>,
    pub paid_time_seconds: Option<u32>,
    pub break_count: usize,
    pub total_break_time_seconds: u32,
}

/// The start and end of a break.
#[derive(Debug, Clone, Copy, PartialEq, Eq, Structural)]
pub struct Span {
    pub start: u32,
    pub end: u32,
}

impl Timed for Span {
    open spec fn sort_key(&self) -> u32 {
        self.start
    }

    fn start_key(&self) -> (r: u32) {
        self.start
    }
}

/// Which breaks are counted in a total.
#[derive(Debug, Clone, Copy, PartialEq, Eq, Structural)]
pub enum BreakFilter {
    All,
    Paid,
    Unpaid,
}

/// Whether `brk` is counted under `filter`.
pub open spec fn counts(brk: Break, filter: BreakFilter) -> bool {
    match filter {
        BreakFilter::All => true,
        BreakFilter::Paid => brk.is_paid,
        BreakFilter::Unpaid => !brk.is_paid,
    }
}

/// The durations of the breaks counted under `filter`, added up.
pub open spec fn total_break_time(s: Seq<Break>, filter: BreakFilter) -> nat
    decreases s.len(),
{
    if s.len() == 0 {
        0
    } else {
        total_break_time(s.drop_last(), filter) + if counts(s.last(), filter) {
            s.last().spec_duration() as nat
        } else {
            0nat
        }
    }
}

/// The start and end of each break.
pub open spec fn break_spans(s: Seq<Break>) -> Seq<Span> {
    Seq::new(s.len(), |i: int| Span { start: s[i].start_time_seconds, end: s[i].end_time_seconds })
}

/// Whether every span ends before the next one starts, or as it starts.
pub open spec fn no_overlap(s: Seq<Span>) -> bool {
    forall|i: int| 0 <= i < s.len() - 1 ==> (#[trigger] s[i]).end <= s[i + 1].start
}

/// Whether every break lies between `on` and `off`.
pub open spec fn all_within(s: Seq<Break>, on: u32, off: u32) -> bool {
    forall|i: int|
        0 <= i < s.len() ==> (#[trigger] s[i]).start_time_seconds >= on && s[i].end_time_seconds
            <= off
}

impl Break {
    /// The end minus the start, and 0 where the end lies before the start.
    pub open spec fn spec_duration(&self) -> u32 {
        if self.end_time_seconds >= self.start_time_seconds {
            (self.end_time_seconds - self.start_time_seconds) as u32
        } else {
            0
        }
    }

    /// An unpaid break without a location.
    pub fn new(start: u32, end: u32) -> (r: Self)
        ensures
            r.start_time_seconds == start,
            r.end_time_seconds == end,
            r.location is None,
            !r.is_paid,
    {
        Break { start_time_seconds: start, end_time_seconds: end, location: None, is_paid: false }
    }

    /// A paid break without a location.
    pub fn paid(start: u32, end: u32) -> (r: Self)
        ensures
            r.start_time_seconds == start,
            r.end_time_seconds == end,
            r.location is None,
            r.is_paid,
    {
        Break { start_time_seconds: start, end_time_seconds: end, location: None, is_paid: true }
    }

    /// The length of the break in seconds.
    pub fn duration_seconds(&self) -> (r: u32)
        ensures
            r == self.spec_duration(),
    {
        if self.end_time_seconds >= self.start_time_seconds {
            self.end_time_seconds - self.start_time_seconds
        } else {
            0
        }
    }

    /// The same break, taken at `location`.
    pub fn with_location(self, location: &str) -> (r: Self)
        ensures
            r.start_time_seconds == self.start_time_seconds,
            r.end_time_seconds == self.end_time_seconds,
            r.is_paid == self.is_paid,
            r.location is Some,
            r.location.unwrap()@ == location@,
    {
        Break {
            start_time_seconds: self.start_time_seconds,
            end_time_seconds: self.end_time_seconds,
            location: Some(String::from_str(location)),
            is_paid: self.is_paid,
        }
    }
}

impl Shift {
    /// Sign-off minus sign-on, where both are known and in order.
    pub open spec fn spec_total_duration(&self) -> Option<u32> {
        spec_duration(self.sign_on_seconds, self.sign_off_seconds)
    }

    /// The total duration less the unpaid breaks, and 0 where they are longer.
    pub open spec fn spec_paid_time(&self) -> Option<u32> {
        match self.spec_total_duration() {
            Some(total) => {
                let unpaid = total_break_time(self.breaks@, BreakFilter::Unpaid);
                Some(if unpaid >= total {
                    0u32
                } else {
                    (total - unpaid) as u32
                })
            },
            None => None,
        }
    }

    /// Whether the breaks lie within the shift, where its bounds are known,
    /// and do not overlap when put in the order of their starts.
    pub open spec fn spec_breaks_valid(&self) -> bool {
        self.breaks@.len() == 0 || {
            &&& (self.sign_on_seconds is Some && self.sign_off_seconds is Some ==> all_within(
                self.breaks@,
                self.sign_on_seconds.unwrap(),
                self.sign_off_seconds.unwrap(),
            ))
            &&& no_overlap(sorted_by_start(break_spans(self.breaks@)))
        }
    }

    /// A shift without times, breaks or depot.
    pub fn new(shift_id: String, duty_id: String) -> (r: Self)
        ensures
            r.shift_id == shift_id,
            r.duty_id == duty_id,
            r.sign_on_seconds is None,
            r.sign_off_seconds is None,
            r.breaks@.len() == 0,
            r.depot is None,
    {
        Shift {
            shift_id,
            duty_id,
            sign_on_seconds: None,
            sign_off_seconds: None,
            breaks: Vec::new(),
            depot: None,
        }
    }

    /// The length of the shift in seconds.
    pub fn total_duration_seconds(&self) -> (r: Option<u32>)
        ensures
            r == self.spec_total_duration(),
    {
        duration_between(self.sign_on_seconds, self.sign_off_seconds)
    }

    /// The break time counted under `filter`, capped at `u32::MAX`.
    pub fn break_time(&self, filter: BreakFilter) -> (r: u32)
        ensures
            r == capped(total_break_time(self.breaks@, filter)),
    {
        let mut total: u64 = 0;
        let mut i: usize = 0;
        while i < self.breaks.len()
            invariant
                i <= self.breaks.len(),
                total <= u32::MAX,
                total == capped(total_break_time(self.breaks@.take(i as int), filter)),
            decreases self.breaks.len() - i,
        {
            proof {
                assert(self.breaks@.take(i + 1).drop_last() =~= self.breaks@.take(i as int));
            }
            let brk = &self.breaks[i];
            let counted = match filter {
                BreakFilter::All => true,
                BreakFilter::Paid => brk.is_paid,
                BreakFilter::Unpaid => !brk.is_paid,
            };
            if counted {
                total = total + brk.duration_seconds() as u64;
                if total > 0xffff_ffffu64 {
                    total = 0xffff_ffffu64;
                }
            }
            i = i + 1;
        }
        proof {
            assert(self.breaks@.take(self.breaks.len() as int) =~= self.breaks@);
        }
        total as u32
    }

    /// The paid time in seconds: the total duration less the unpaid breaks,
    /// never below 0.
    pub fn paid_time_seconds(&self) -> (r: Option<u32>)
        ensures
            r == self.spec_paid_time(),
    {
        match self.total_duration_seconds() {
            Some(total) => {
                let unpaid = self.break_time(BreakFilter::Unpaid);
                Some(if unpaid >= total {
                    0
                } else {
                    total - unpaid
                })
            },
            None => None,
        }
    }

    /// All break time, capped at `u32::MAX`.
    pub fn total_break_time_seconds(&self) -> (r: u32)
        ensures
            r == capped(total_break_time(self.breaks@, BreakFilter::All)),
    {
        self.break_time(BreakFilter::All)
    }

    /// The paid break time, capped at `u32::MAX`.
    pub fn paid_break_time_seconds(&self) -> (r: u32)
        ensures
            r == capped(total_break_time(self.breaks@, BreakFilter::Paid)),
    {
        self.break_time(BreakFilter::Paid)
    }

    /// The unpaid break time, capped at `u32::MAX`.
    pub fn unpaid_break_time_seconds(&self) -> (r: u32)
        ensures
            r == capped(total_break_time(self.breaks@, BreakFilter::Unpaid)),
    {
        self.break_time(BreakFilter::Unpaid)
    }

    /// Adds a break behind the others.
    pub fn add_break(&mut self, brk: Break)
        ensures
            final(self).breaks@ == old(self).breaks@.push(brk),
            final(self).shift_id == old(self).shift_id,
            final(self).duty_id == old(self).duty_id,
            final(self).sign_on_seconds == old(self).sign_on_seconds,
            final(self).sign_off_seconds == old(self).sign_off_seconds,
            final(self).depot == old(self).depot,
    {
        self.breaks.push(brk);
    }

    /// Whether the breaks lie within the shift and do not overlap.
    pub fn breaks_valid(&self) -> (r: bool)
        ensures
            r == self.spec_breaks_valid(),
    {
        let n = self.breaks.len();
        if n == 0 {
            return true;
        }
        let mut spans: Vec<Span> = Vec::new();
        let mut within = true;
        let mut i: usize = 0;
        while i < n
            invariant
                n == self.breaks.len(),
                i <= n,
                spans@ == break_spans(self.breaks@).take(i as int),
                within == (self.sign_on_seconds is Some && self.sign_off_seconds is Some
                    ==> all_within(
                    self.breaks@.take(i as int),
                    self.sign_on_seconds.unwrap(),
                    self.sign_off_seconds.unwrap(),
                )),
            decreases n - i,
        {
            let brk = &self.breaks[i];
            let ghost prefix = self.breaks@.take(i as int);
            let ghost next = self.breaks@.take(i + 1);
            proof {
                assert(next.drop_last() =~= prefix);
                assert(next.last() == self.breaks@[i as int]);
                assert forall|k: int| 0 <= k < prefix.len() implies prefix[k] == next[k] by {}
            }
            match (self.sign_on_seconds, self.sign_off_seconds) {
                (Some(on), Some(off)) => {
                    if brk.start_time_seconds < on || brk.end_time_seconds > off {
                        within = false;
                        proof {
                            assert(!all_within(next, on, off)) by {
                                assert(next[i as int] == self.breaks@[i as int]);
                            }
                        }
                    } else {
                        proof {
                            if all_within(prefix, on, off) {
                                assert forall|k: int| 0 <= k < next.len() implies (
                                #[trigger] next[k]).start_time_seconds >= on
                                    && next[k].end_time_seconds <= off by {
                                    if k < i {
                                        assert(prefix[k] == next[k]);
                                    }
                                }
                            } else {
                                let k = choose|k: int|
                                    0 <= k < prefix.len() && !((#[trigger] prefix[k]).start_time_seconds
                                        >= on && prefix[k].end_time_seconds <= off);
                                assert(next[k] == prefix[k]);
                            }
                        }
                    }
                },
                _ => {},
            }
            spans.push(Span { start: brk.start_time_seconds, end: brk.end_time_seconds });
            proof {
                assert(spans@ =~= break_spans(self.breaks@).take(i + 1));
            }
            i = i + 1;
        }
        proof {
            assert(self.breaks@.take(n as int) =~= self.breaks@);
            assert(break_spans(self.breaks@).take(n as int) =~= break_spans(self.breaks@));
        }
        if !within {
            return false;
        }
        sort_by_start(&mut spans);
        proof {
            lemma_sorted_by_start(break_spans(self.breaks@));
        }
        let m = spans.len();
        let mut k: usize = 0;
        while k < m - 1
            invariant
                m == spans.len(),
                m >= 1,
                k <= m - 1,
                self.breaks@.len() > 0,
                spans@ == sorted_by_start(break_spans(self.breaks@)),
                self.sign_on_seconds is Some && self.sign_off_seconds is Some ==> all_within(
                    self.breaks@,
                    self.sign_on_seconds.unwrap(),
                    self.sign_off_seconds.unwrap(),
                ),
                forall|j: int| 0 <= j < k ==> (#[trigger] spans@[j]).end <= spans@[j + 1].start,
            decreases m - k,
        {
            if spans[k].end > spans[k + 1].start {
                return false;
            }
            k = k + 1;
        }
        true
    }

    /// The figures that sum up the shift.
    pub fn summary(&self) -> (r: ShiftSummary)
        ensures
            r.shift_id == self.shift_id,
            r.total_duration_seconds == self.spec_total_duration(),
            r.paid_time_seconds == self.spec_paid_time(),
            r.break_count == self.breaks@.len(),
            r.total_break_time_seconds == capped(
                total_break_time(self.breaks@, BreakFilter::All),
            ),
    {
        ShiftSummary {
            shift_id: self.shift_id.clone(),
            total_duration_seconds: self.total_duration_seconds(),
            paid_time_seconds: self.paid_time_seconds(),
            break_count: self.breaks.len(),
            total_break_time_seconds: self.total_break_time_seconds(),
        }
    }
}

} // verus!
