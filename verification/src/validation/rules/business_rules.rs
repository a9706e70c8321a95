//! The business rules: limits on trips, breaks, layovers, duties and
//! continuous driving.

use crate::models::duty::{are_pieces, piece_rows, Duty};
use crate::models::row_seq::latest_end;
use crate::models::schedule::{are_duties_of, Schedule};
use crate::models::schedule_row::ScheduleRow;
use crate::text::{decimal, lemma_views_concat, lemma_views_push, u64_to_decimal, views};
use crate::time::spec_duration;
use crate::validation::config::{BusinessRules, ValidationConfig};
use vstd::prelude::*;
use vstd::string::*;

verus! {

/// Which rule is broken.
#[derive(Debug, Clone, Copy, PartialEq, Eq, Structural)]
pub enum BusinessRuleErrorType {
    /// A trip lasts longer than the maximum.
    TripTooLong,
    /// A layover is shorter than the minimum.
    LayoverTooShort,
    /// A duty lasts longer than the maximum.
    DutyTooLong,
    /// A piece of work lasts longer than the longest continuous driving.
    ContinuousDrivingTooLong,
    /// A break is shorter than the minimum.
    BreakTooShort,
}

/// A broken rule.
#[derive(Debug)]
pub struct BusinessRuleError {
    pub error_type: BusinessRuleErrorType,
    /// What the error is about: a row, a pair of rows, a duty, a piece.
    pub context: String,
    pub message: String,
}

/// A deviation from good practice.
#[derive(Debug)]
pub struct BusinessRuleWarning {
    pub code: String,
    pub context: String,
    pub message: String,
}

/// What the checker found.
#[derive(Debug)]
pub struct BusinessRuleResult {
    pub errors: Vec<BusinessRuleError>,
    pub warnings: Vec<BusinessRuleWarning>,
}

/// An error, with its texts as sequences of characters.
pub struct RuleErrorView {
    pub error_type: BusinessRuleErrorType,
    pub context: Seq<char>,
    pub message: Seq<char>,
}

/// A warning, with its texts as sequences of characters.
pub struct RuleWarningView {
    pub code: Seq<char>,
    pub context: Seq<char>,
    pub message: Seq<char>,
}

/// Errors and warnings, in the order they were found.
pub struct RuleFindings {
    pub errors: Seq<RuleErrorView>,
    pub warnings: Seq<RuleWarningView>,
}

impl View for BusinessRuleError {
    type V = RuleErrorView;

    open spec fn view(&self) -> RuleErrorView {
        RuleErrorView {
            error_type: self.error_type,
            context: self.context@,
            message: self.message@,
        }
    }
}

impl View for BusinessRuleWarning {
    type V = RuleWarningView;

    open spec fn view(&self) -> RuleWarningView {
        RuleWarningView { code: self.code@, context: self.context@, message: self.message@ }
    }
}

impl View for BusinessRuleResult {
    type V = RuleFindings;

    open spec fn view(&self) -> RuleFindings {
        RuleFindings { errors: views(self.errors@), warnings: views(self.warnings@) }
    }
}

impl RuleFindings {
    /// No finding.
    pub open spec fn none() -> RuleFindings {
        RuleFindings { errors: Seq::empty(), warnings: Seq::empty() }
    }

    /// These findings, and then those of `other`.
    pub open spec fn plus(self, other: RuleFindings) -> RuleFindings {
        RuleFindings {
            errors: self.errors + other.errors,
            warnings: self.warnings + other.warnings,
        }
    }
}

/// The text that names row `i`.
pub open spec fn row_context(i: usize) -> Seq<char> {
    "row "@ + decimal(i as nat)
}

/// The text of an error: what was measured, how long it lasted, in what way
/// it breaks the limit, and the limit.
pub open spec fn limit_message(what: Seq<char>, value: u32, relation: Seq<char>, limit: u32) -> Seq<
    char,
> {
    what + decimal(value as nat) + relation + decimal(limit as nat) + " seconds"@
}

/// The error for a revenue trip that lasts longer than the maximum.
pub open spec fn trip_too_long(i: usize, duration: u32, max: u32) -> RuleErrorView {
    RuleErrorView {
        error_type: BusinessRuleErrorType::TripTooLong,
        context: row_context(i),
        message: limit_message("Trip duration "@, duration, " seconds exceeds maximum "@, max),
    }
}

/// The error for a break or relief that is shorter than the minimum.
pub open spec fn break_too_short(i: usize, duration: u32, min: u32) -> RuleErrorView {
    RuleErrorView {
        error_type: BusinessRuleErrorType::BreakTooShort,
        context: row_context(i),
        message: limit_message(
            "Break duration "@,
            duration,
            " seconds is less than minimum "@,
            min,
        ),
    }
}

/// The index of the row in front of row `i`; 0 for the first row, which has none.
pub open spec fn row_before(i: usize) -> usize {
    if i >= 1 {
        (i - 1) as usize
    } else {
        0
    }
}

/// The error for a layover in front of row `i` that is shorter than the minimum.
pub open spec fn layover_too_short(i: usize, layover: u32, min: u32) -> RuleErrorView {
    RuleErrorView {
        error_type: BusinessRuleErrorType::LayoverTooShort,
        context: "rows "@ + decimal(row_before(i) as nat) + "-"@ + decimal(i as nat),
        message: limit_message("Layover "@, layover, " seconds is less than minimum "@, min),
    }
}

/// The error for a duty that lasts longer than the maximum.
pub open spec fn duty_too_long(duty_id: Seq<char>, duration: u32, max: u32) -> RuleErrorView {
    RuleErrorView {
        error_type: BusinessRuleErrorType::DutyTooLong,
        context: "duty "@ + duty_id,
        message: limit_message("Duty length "@, duration, " seconds exceeds maximum "@, max),
    }
}

/// The error for piece `k` of a duty, which lasts longer than the longest
/// continuous driving.
pub open spec fn driving_too_long(duty_id: Seq<char>, k: int, duration: u32, max: u32) -> RuleErrorView {
    RuleErrorView {
        error_type: BusinessRuleErrorType::ContinuousDrivingTooLong,
        context: "duty "@ + duty_id + " piece "@ + decimal(k as nat),
        message: limit_message(
            "Continuous driving "@,
            duration,
            " seconds exceeds maximum "@,
            max,
        ),
    }
}

/// The warning for a revenue trip without start coordinates.
pub open spec fn no_start_coordinates(i: usize) -> RuleWarningView {
    RuleWarningView {
        code: "W201"@,
        context: row_context(i),
        message: "Revenue trip missing start coordinates"@,
    }
}

/// The warning for a revenue trip without end coordinates.
pub open spec fn no_end_coordinates(i: usize) -> RuleWarningView {
    RuleWarningView {
        code: "W202"@,
        context: row_context(i),
        message: "Revenue trip missing end coordinates"@,
    }
}

/// The warning for a revenue trip without a block.
pub open spec fn orphan_trip(i: usize) -> RuleWarningView {
    RuleWarningView {
        code: "W203"@,
        context: row_context(i),
        message: "Revenue trip not assigned to any block"@,
    }
}

/// The errors of one row: a revenue trip above the longest trip, a break or
/// relief below the shortest break.
pub open spec fn row_errors(rules: BusinessRules, row: ScheduleRow, i: usize) -> Seq<RuleErrorView> {
    (if row.spec_is_revenue() && row.spec_duration() is Some && row.spec_duration().unwrap()
        > rules.max_trip_duration_seconds {
        seq![trip_too_long(i, row.spec_duration().unwrap(), rules.max_trip_duration_seconds)]
    } else {
        Seq::empty()
    }) + (if row.spec_is_break_or_relief() && row.spec_duration() is Some
        && row.spec_duration().unwrap() < rules.min_break_duration_seconds {
        seq![break_too_short(i, row.spec_duration().unwrap(), rules.min_break_duration_seconds)]
    } else {
        Seq::empty()
    })
}

/// The warnings of one row: a revenue trip without coordinates, where
/// that is to be reported.
pub open spec fn row_warnings(rules: BusinessRules, row: ScheduleRow, i: usize) -> Seq<
    RuleWarningView,
> {
    let flagged = rules.flag_missing_coordinates && row.spec_is_revenue();
    (if flagged && (row.start_lat is None || row.start_lon is None) {
        seq![no_start_coordinates(i)]
    } else {
        Seq::empty()
    }) + (if flagged && (row.end_lat is None || row.end_lon is None) {
        seq![no_end_coordinates(i)]
    } else {
        Seq::empty()
    })
}

/// The layover between two rows that is too short: both are revenue trips,
/// the second starts after the first ends, and less than `min` seconds after.
pub open spec fn short_layover(prev: ScheduleRow, curr: ScheduleRow, min: u32) -> Option<u32> {
    if prev.spec_is_revenue() && curr.spec_is_revenue() {
        match (prev.spec_end(), curr.spec_start()) {
            (Some(end), Some(start)) => if start > end && start - end < min {
                Some((start - end) as u32)
            } else {
                None
            },
            _ => None,
        }
    } else {
        None
    }
}

/// The errors of the layover in front of row `i`.
pub open spec fn layover_errors(rules: BusinessRules, prev: ScheduleRow, curr: ScheduleRow, i: usize) -> Seq<
    RuleErrorView,
> {
    match short_layover(prev, curr, rules.min_layover_seconds) {
        Some(layover) => seq![layover_too_short(i, layover, rules.min_layover_seconds)],
        None => Seq::empty(),
    }
}

/// The duration of a piece of work made of `rows`.
pub open spec fn piece_duration(rows: Seq<ScheduleRow>) -> Option<u32> {
    spec_duration(rows[0].spec_start(), latest_end(rows))
}

/// The errors of the first `n` pieces of a duty.
pub open spec fn piece_errors(duty_id: Seq<char>, cut: Seq<Seq<ScheduleRow>>, max: u32, n: int) -> Seq<
    RuleErrorView,
>
    decreases n,
{
    if n <= 0 {
        Seq::empty()
    } else {
        let d = piece_duration(cut[n - 1]);
        if d is Some && d.unwrap() > max {
            piece_errors(duty_id, cut, max, n - 1).push(
                driving_too_long(duty_id, n - 1, d.unwrap(), max),
            )
        } else {
            piece_errors(duty_id, cut, max, n - 1)
        }
    }
}

/// The error of a duty that lasts too long.
pub open spec fn duty_length_errors(rules: BusinessRules, duty: Duty) -> Seq<RuleErrorView> {
    if duty.spec_duration() is Some && duty.spec_duration().unwrap()
        > rules.max_duty_length_seconds {
        seq![
            duty_too_long(
                duty.duty_id@,
                duty.spec_duration().unwrap(),
                rules.max_duty_length_seconds,
            ),
        ]
    } else {
        Seq::empty()
    }
}

/// The errors of a duty: its length, then its pieces of work in their order.
pub open spec fn duty_errors(rules: BusinessRules, duty: Duty) -> Seq<RuleErrorView> {
    let cut = piece_rows(duty.rows@);
    duty_length_errors(rules, duty) + piece_errors(
        duty.duty_id@,
        cut,
        rules.max_continuous_driving_seconds,
        cut.len() as int,
    )
}

/// The warnings for the revenue trips without a block among the rows below `n`.
pub open spec fn orphan_warnings(rows: Seq<ScheduleRow>, n: int) -> Seq<RuleWarningView>
    decreases n,
{
    if n <= 0 {
        Seq::empty()
    } else if rows[n - 1].spec_is_revenue() && rows[n - 1].block is None {
        orphan_warnings(rows, n - 1).push(orphan_trip((n - 1) as usize))
    } else {
        orphan_warnings(rows, n - 1)
    }
}

/// How many of `errors` are of the kind `kind`.
pub open spec fn count_of_type(errors: Seq<RuleErrorView>, kind: BusinessRuleErrorType) -> nat
    decreases errors.len(),
{
    if errors.len() == 0 {
        0
    } else {
        count_of_type(errors.drop_last(), kind) + if errors.last().error_type == kind {
            1nat
        } else {
            0nat
        }
    }
}

/// The errors of the pieces of work are all about continuous driving.
pub proof fn lemma_piece_errors_kind(
    duty_id: Seq<char>,
    cut: Seq<Seq<ScheduleRow>>,
    max: u32,
    n: int,
)
    ensures
        count_of_type(piece_errors(duty_id, cut, max, n), BusinessRuleErrorType::DutyTooLong) == 0,
    decreases n,
{
    if n > 0 {
        lemma_piece_errors_kind(duty_id, cut, max, n - 1);
        let d = piece_duration(cut[n - 1]);
        if d is Some && d.unwrap() > max {
            let prev = piece_errors(duty_id, cut, max, n - 1);
            let cur = piece_errors(duty_id, cut, max, n);
            assert(cur.drop_last() =~= prev);
        }
    }
}

/// Counting in two lists, one behind the other, is counting in each.
pub proof fn lemma_count_of_type_concat(
    a: Seq<RuleErrorView>,
    b: Seq<RuleErrorView>,
    kind: BusinessRuleErrorType,
)
    ensures
        count_of_type(a + b, kind) == count_of_type(a, kind) + count_of_type(b, kind),
    decreases b.len(),
{
    if b.len() == 0 {
        assert(a + b =~= a);
    } else {
        lemma_count_of_type_concat(a, b.drop_last(), kind);
        assert((a + b).drop_last() =~= a + b.drop_last());
        assert((a + b).last() == b.last());
    }
}

/// A duty that lasts longer than the longest duty gets exactly one error
/// for that, however many pieces of work it has; any other duty gets none.
pub proof fn lemma_one_error_for_long_duty(rules: BusinessRules, duty: Duty)
    ensures
        count_of_type(duty_errors(rules, duty), BusinessRuleErrorType::DutyTooLong) == (
        if duty.spec_duration() is Some && duty.spec_duration().unwrap()
            > rules.max_duty_length_seconds {
            1nat
        } else {
            0nat
        }),
{
    let cut = piece_rows(duty.rows@);
    let head = duty_length_errors(rules, duty);
    let tail = piece_errors(
        duty.duty_id@,
        cut,
        rules.max_continuous_driving_seconds,
        cut.len() as int,
    );
    lemma_piece_errors_kind(
        duty.duty_id@,
        cut,
        rules.max_continuous_driving_seconds,
        cut.len() as int,
    );
    lemma_count_of_type_concat(head, tail, BusinessRuleErrorType::DutyTooLong);
    if head.len() > 0 {
        assert(head.drop_last() =~= Seq::<RuleErrorView>::empty());
        assert(count_of_type(head.drop_last(), BusinessRuleErrorType::DutyTooLong) == 0);
    }
}

impl Default for BusinessRuleResult {
    fn default() -> (r: Self)
        ensures
            r@ == RuleFindings::none(),
    {
        let r = BusinessRuleResult { errors: Vec::new(), warnings: Vec::new() };
        proof {
            assert(views(r.errors@) =~= Seq::empty());
            assert(views(r.warnings@) =~= Seq::empty());
        }
        r
    }
}

impl BusinessRuleResult {
    /// Whether there is no error.
    pub fn is_valid(&self) -> (r: bool)
        ensures
            r == (self.errors@.len() == 0),
    {
        self.errors.len() == 0
    }
}

/// Checks the business rules.
#[derive(Debug)]
pub struct BusinessRuleChecker {
    /// The configuration.
    pub config: ValidationConfig,
}

/// The text that names row `i`.
fn make_row_context(i: usize) -> (r: String)
    ensures
        r@ == row_context(i),
{
    let mut s = String::from_str("row ");
    s.append(u64_to_decimal(i as u64).as_str());
    s
}

/// The text of an error about a limit.
fn make_limit_message(what: &str, value: u32, relation: &str, limit: u32) -> (r: String)
    ensures
        r@ == limit_message(what@, value, relation@, limit),
{
    let mut s = String::from_str(what);
    s.append(u64_to_decimal(value as u64).as_str());
    s.append(relation);
    s.append(u64_to_decimal(limit as u64).as_str());
    s.append(" seconds");
    s
}

impl BusinessRuleChecker {
    /// What is reported for one row.
    pub open spec fn row_findings(&self, row: ScheduleRow, i: usize) -> RuleFindings {
        RuleFindings {
            errors: row_errors(self.config.business_rules, row, i),
            warnings: row_warnings(self.config.business_rules, row, i),
        }
    }

    /// What is reported for the layover between two rows.
    pub open spec fn layover_findings(&self, prev: ScheduleRow, curr: ScheduleRow, i: usize) -> RuleFindings {
        RuleFindings {
            errors: layover_errors(self.config.business_rules, prev, curr, i),
            warnings: Seq::empty(),
        }
    }

    /// What is reported for one duty.
    pub open spec fn duty_findings(&self, duty: Duty) -> RuleFindings {
        RuleFindings {
            errors: duty_errors(self.config.business_rules, duty),
            warnings: Seq::empty(),
        }
    }

    /// What is reported for row `i` and the layover in front of it.
    pub open spec fn step_findings(&self, rows: Seq<ScheduleRow>, i: int) -> RuleFindings {
        if i > 0 {
            self.row_findings(rows[i], i as usize).plus(
                self.layover_findings(rows[i - 1], rows[i], i as usize),
            )
        } else {
            self.row_findings(rows[i], i as usize)
        }
    }

    /// What is reported for the first `n` rows, and whether the error
    /// budget was used up on the way.
    pub open spec fn rows_findings(&self, rows: Seq<ScheduleRow>, n: int) -> (RuleFindings, bool)
        decreases n,
    {
        if n <= 0 {
            (RuleFindings::none(), false)
        } else {
            let (before, stopped) = self.rows_findings(rows, n - 1);
            if stopped {
                (before, true)
            } else {
                let now = before.plus(self.step_findings(rows, n - 1));
                (now, self.config.budget_reached(now.errors.len() as int))
            }
        }
    }

    /// What is reported for the rows of a schedule: row by row, each with
    /// the layover in front of it; and, where the error budget was not used
    /// up and orphans are to be reported, the revenue trips without a block.
    pub open spec fn schedule_findings(&self, rows: Seq<ScheduleRow>) -> RuleFindings {
        let (found, stopped) = self.rows_findings(rows, rows.len() as int);
        if !stopped && self.config.business_rules.flag_orphan_trips {
            RuleFindings {
                errors: found.errors,
                warnings: found.warnings + orphan_warnings(rows, rows.len() as int),
            }
        } else {
            found
        }
    }

    /// What is reported for the first `n` of `duties`, and whether the
    /// error budget was used up on the way.
    pub open spec fn duties_findings(&self, duties: Seq<Duty>, n: int) -> (RuleFindings, bool)
        decreases n,
    {
        if n <= 0 {
            (RuleFindings::none(), false)
        } else {
            let (before, stopped) = self.duties_findings(duties, n - 1);
            if stopped {
                (before, true)
            } else {
                let now = before.plus(self.duty_findings(duties[n - 1]));
                (now, self.config.budget_reached(now.errors.len() as int))
            }
        }
    }

    /// What is reported for all of `duties`: nothing where duties are not
    /// to be checked.
    pub open spec fn all_duties_findings(&self, duties: Seq<Duty>) -> RuleFindings {
        if self.config.validate_duty_constraints {
            self.duties_findings(duties, duties.len() as int).0
        } else {
            RuleFindings::none()
        }
    }

    /// A checker with the configuration `config`.
    pub fn new(config: &ValidationConfig) -> (r: Self)
        ensures
            r.config == *config,
    {
        BusinessRuleChecker { config: *config }
    }

    /// Checks one row: the duration of a revenue trip, the duration of a
    /// break or relief, and, where that is to be reported, the coordinates
    /// of a revenue trip.
    pub fn check_row(&self, row: &ScheduleRow, row_index: usize) -> (r: BusinessRuleResult)
        ensures
            r@ == self.row_findings(*row, row_index),
    {
        let mut result = BusinessRuleResult::default();
        let rules = &self.config.business_rules;
        let duration = row.duration_seconds();
        match duration {
            Some(d) => {
                if row.is_revenue() && d > rules.max_trip_duration_seconds {
                    let error = BusinessRuleError {
                        error_type: BusinessRuleErrorType::TripTooLong,
                        context: make_row_context(row_index),
                        message: make_limit_message(
                            "Trip duration ",
                            d,
                            " seconds exceeds maximum ",
                            rules.max_trip_duration_seconds,
                        ),
                    };
                    proof {
                        lemma_views_push(result.errors@, error);
                    }
                    result.errors.push(error);
                }
                if row.is_break_or_relief() && d < rules.min_break_duration_seconds {
                    let error = BusinessRuleError {
                        error_type: BusinessRuleErrorType::BreakTooShort,
                        context: make_row_context(row_index),
                        message: make_limit_message(
                            "Break duration ",
                            d,
                            " seconds is less than minimum ",
                            rules.min_break_duration_seconds,
                        ),
                    };
                    proof {
                        lemma_views_push(result.errors@, error);
                    }
                    result.errors.push(error);
                }
            },
            None => {},
        }
        if rules.flag_missing_coordinates && row.is_revenue() {
            if row.start_lat.is_none() || row.start_lon.is_none() {
                let warning = BusinessRuleWarning {
                    code: String::from_str("W201"),
                    context: make_row_context(row_index),
                    message: String::from_str("Revenue trip missing start coordinates"),
                };
                proof {
                    lemma_views_push(result.warnings@, warning);
                }
                result.warnings.push(warning);
            }
            if row.end_lat.is_none() || row.end_lon.is_none() {
                let warning = BusinessRuleWarning {
                    code: String::from_str("W202"),
                    context: make_row_context(row_index),
                    message: String::from_str("Revenue trip missing end coordinates"),
                };
                proof {
                    lemma_views_push(result.warnings@, warning);
                }
                result.warnings.push(warning);
            }
        }
        proof {
            assert(result@.errors =~= row_errors(self.config.business_rules, *row, row_index));
            assert(result@.warnings =~= row_warnings(self.config.business_rules, *row, row_index));
        }
        result
    }

    /// Checks the layover between two rows, of which `curr_row` is row
    /// `row_index`. Only a layover between two revenue trips is checked.
    pub fn check_layover(&self, prev_row: &ScheduleRow, curr_row: &ScheduleRow, row_index: usize) -> (r:
        BusinessRuleResult)
        ensures
            r@ == self.layover_findings(*prev_row, *curr_row, row_index),
    {
        let mut result = BusinessRuleResult::default();
        let rules = &self.config.business_rules;
        if !prev_row.is_revenue() || !curr_row.is_revenue() {
            return result;
        }
        match (prev_row.end_time_seconds(), curr_row.start_time_seconds()) {
            (Some(prev_end), Some(curr_start)) => {
                if curr_start > prev_end {
                    let layover = curr_start - prev_end;
                    if layover < rules.min_layover_seconds {
                        let mut context = String::from_str("rows ");
                        let before: usize = if row_index >= 1 {
                            row_index - 1
                        } else {
                            0
                        };
                        context.append(u64_to_decimal(before as u64).as_str());
                        context.append("-");
                        context.append(u64_to_decimal(row_index as u64).as_str());
                        let error = BusinessRuleError {
                            error_type: BusinessRuleErrorType::LayoverTooShort,
                            context,
                            message: make_limit_message(
                                "Layover ",
                                layover,
                                " seconds is less than minimum ",
                                rules.min_layover_seconds,
                            ),
                        };
                        proof {
                            lemma_views_push(result.errors@, error);
                            assert(views(result.errors@.push(error)) =~= seq![error@]);
                        }
                        result.errors.push(error);
                    }
                }
            },
            _ => {},
        }
        result
    }

    /// Checks one duty: its length, and the length of each piece of work.
    pub fn check_duty(&self, duty: &Duty) -> (r: BusinessRuleResult)
        ensures
            r@ == self.duty_findings(*duty),
    {
        let mut result = BusinessRuleResult::default();
        let rules = &self.config.business_rules;
        match duty.duration_seconds() {
            Some(d) => {
                if d > rules.max_duty_length_seconds {
                    let mut context = String::from_str("duty ");
                    context.append(duty.duty_id.as_str());
                    let error = BusinessRuleError {
                        error_type: BusinessRuleErrorType::DutyTooLong,
                        context,
                        message: make_limit_message(
                            "Duty length ",
                            d,
                            " seconds exceeds maximum ",
                            rules.max_duty_length_seconds,
                        ),
                    };
                    proof {
                        lemma_views_push(result.errors@, error);
                        assert(views(result.errors@.push(error)) =~= seq![error@]);
                    }
                    result.errors.push(error);
                }
            },
            None => {},
        }
        let pieces = duty.pieces_of_work();
        let ghost cut = piece_rows(duty.rows@);
        let ghost head = views(result.errors@);
        let max = rules.max_continuous_driving_seconds;
        let mut k: usize = 0;
        proof {
            assert(head + Seq::<RuleErrorView>::empty() =~= head);
        }
        while k < pieces.len()
            invariant
                k <= pieces.len(),
                are_pieces(pieces@, cut),
                cut == piece_rows(duty.rows@),
                max == self.config.business_rules.max_continuous_driving_seconds,
                head == duty_length_errors(self.config.business_rules, *duty),
                views(result.errors@) == head + piece_errors(duty.duty_id@, cut, max, k as int),
                views(result.warnings@) == Seq::<RuleWarningView>::empty(),
            decreases pieces.len() - k,
        {
            assert(crate::models::duty::is_piece(pieces@[k as int], cut[k as int]));
            match pieces[k].duration_seconds() {
                Some(d) => {
                    if d > max {
                        let mut context = String::from_str("duty ");
                        context.append(duty.duty_id.as_str());
                        context.append(" piece ");
                        context.append(u64_to_decimal(k as u64).as_str());
                        let error = BusinessRuleError {
                            error_type: BusinessRuleErrorType::ContinuousDrivingTooLong,
                            context,
                            message: make_limit_message(
                                "Continuous driving ",
                                d,
                                " seconds exceeds maximum ",
                                max,
                            ),
                        };
                        proof {
                            lemma_views_push(result.errors@, error);
                            let prev = piece_errors(duty.duty_id@, cut, max, k as int);
                            assert((head + prev).push(error@) =~= head + prev.push(error@));
                        }
                        result.errors.push(error);
                    }
                },
                None => {},
            }
            k = k + 1;
        }
        result
    }

    /// The warnings for the revenue trips without a block.
    fn find_orphans(&self, rows: &Vec<ScheduleRow>) -> (r: Vec<BusinessRuleWarning>)
        ensures
            views(r@) == orphan_warnings(rows@, rows@.len() as int),
    {
        let mut warnings: Vec<BusinessRuleWarning> = Vec::new();
        proof {
            assert(views(warnings@) =~= Seq::empty());
        }
        let mut i: usize = 0;
        while i < rows.len()
            invariant
                i <= rows.len(),
                views(warnings@) == orphan_warnings(rows@, i as int),
            decreases rows.len() - i,
        {
            if rows[i].is_revenue() && rows[i].block.is_none() {
                let warning = BusinessRuleWarning {
                    code: String::from_str("W203"),
                    context: make_row_context(i),
                    message: String::from_str("Revenue trip not assigned to any block"),
                };
                proof {
                    lemma_views_push(warnings@, warning);
                }
                warnings.push(warning);
            }
            i = i + 1;
        }
        warnings
    }

    /// Checks the rows of a schedule: each row, and the layover in front of
    /// it. With an error budget, the rows behind the one that used it up
    /// are not checked, and no orphans are reported then.
    pub fn check_schedule(&self, schedule: &Schedule) -> (r: BusinessRuleResult)
        ensures
            r@ == self.schedule_findings(schedule.rows@),
    {
        let mut combined = BusinessRuleResult::default();
        let rows = &schedule.rows;
        let mut i: usize = 0;
        let mut stopped = false;
        while i < rows.len() && !stopped
            invariant
                i <= rows.len(),
                (combined@, stopped) == self.rows_findings(rows@, i as int),
            decreases rows.len() - i,
        {
            let ghost before = combined;
            let mut part = self.check_row(&rows[i], i);
            let ghost found = part;
            combined.errors.append(&mut part.errors);
            combined.warnings.append(&mut part.warnings);
            proof {
                lemma_views_concat(before.errors@, found.errors@);
                lemma_views_concat(before.warnings@, found.warnings@);
            }
            if i > 0 {
                let ghost middle = combined;
                let mut layover = self.check_layover(&rows[i - 1], &rows[i], i);
                let ghost found2 = layover;
                combined.errors.append(&mut layover.errors);
                combined.warnings.append(&mut layover.warnings);
                proof {
                    lemma_views_concat(middle.errors@, found2.errors@);
                    lemma_views_concat(middle.warnings@, found2.warnings@);
                    assert(combined@.errors =~= before@.errors + (found@.errors + found2@.errors));
                    assert(combined@.warnings =~= before@.warnings + (found@.warnings
                        + found2@.warnings));
                }
            }
            stopped = self.config.is_budget_reached(combined.errors.len());
            i = i + 1;
        }
        proof {
            self.lemma_rows_stopped_stays(rows@, i as int, rows@.len() as int);
        }
        if stopped {
            return combined;
        }
        if self.config.business_rules.flag_orphan_trips {
            let mut orphans = self.find_orphans(rows);
            proof {
                lemma_views_concat(combined.warnings@, orphans@);
            }
            combined.warnings.append(&mut orphans);
        }
        combined
    }

    /// Once the budget is used up, further rows change nothing.
    proof fn lemma_rows_stopped_stays(&self, rows: Seq<ScheduleRow>, i: int, n: int)
        requires
            0 <= i <= n,
            i == n || self.rows_findings(rows, i).1,
        ensures
            self.rows_findings(rows, n) == self.rows_findings(rows, i),
        decreases n - i,
    {
        if i < n {
            if i < n - 1 {
                self.lemma_rows_stopped_stays(rows, i, n - 1);
            }
        }
    }

    /// Checks `duties` in their order.
    pub fn check_duty_list(&self, duties: &Vec<Duty>) -> (r: BusinessRuleResult)
        ensures
            r@ == self.all_duties_findings(duties@),
    {
        let mut combined = BusinessRuleResult::default();
        if !self.config.validate_duty_constraints {
            return combined;
        }
        let mut i: usize = 0;
        let mut stopped = false;
        while i < duties.len() && !stopped
            invariant
                i <= duties.len(),
                (combined@, stopped) == self.duties_findings(duties@, i as int),
            decreases duties.len() - i,
        {
            let ghost before = combined;
            let mut part = self.check_duty(&duties[i]);
            let ghost found = part;
            combined.errors.append(&mut part.errors);
            combined.warnings.append(&mut part.warnings);
            proof {
                lemma_views_concat(before.errors@, found.errors@);
                lemma_views_concat(before.warnings@, found.warnings@);
            }
            stopped = self.config.is_budget_reached(combined.errors.len());
            i = i + 1;
        }
        proof {
            self.lemma_duties_stopped_stays(duties@, i as int, duties@.len() as int);
        }
        combined
    }

    /// Once the budget is used up, further duties change nothing.
    proof fn lemma_duties_stopped_stays(&self, duties: Seq<Duty>, i: int, n: int)
        requires
            0 <= i <= n,
            i == n || self.duties_findings(duties, i).1,
        ensures
            self.duties_findings(duties, n) == self.duties_findings(duties, i),
        decreases n - i,
    {
        if i < n {
            if i < n - 1 {
                self.lemma_duties_stopped_stays(duties, i, n - 1);
            }
        }
    }

    /// Checks the duties of a schedule, in rising order of their
    /// identifiers; nothing where duties are not to be checked. The duties
    /// are derived from the rows as they are now.
    pub fn check_duties(&self, schedule: &mut Schedule) -> (r: BusinessRuleResult)
        ensures
            final(schedule).same_rows_as(old(schedule)),
            final(schedule).blocks == old(schedule).blocks,
            self.config.validate_duty_constraints ==> final(schedule).duties is Some
                && are_duties_of(final(schedule).duties.unwrap().entries@, old(schedule).rows@)
                && r@ == self.all_duties_findings(final(schedule).duties.unwrap().entries@),
            !self.config.validate_duty_constraints ==> final(schedule).duties == old(
                schedule,
            ).duties && r@ == RuleFindings::none(),
    {
        if !self.config.validate_duty_constraints {
            return BusinessRuleResult::default();
        }
        schedule.derive_duties();
        let map = match &schedule.duties {
            Some(m) => m,
            None => {
                return BusinessRuleResult::default();
            },
        };
        self.check_duty_list(&map.entries)
    }
}

} // verus!
