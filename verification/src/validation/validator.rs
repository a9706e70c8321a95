//! The coordinator of the checkers.
//!
//! The checkers run in a fixed order: references, block continuity,
//! business rules, duties. Their findings are merged into one result. With
//! an error budget, the validation stops at the error that uses it up: the
//! result is then marked as truncated and holds a lower bound, not a full
//! audit. Warnings are collected from all checkers or from none.

use crate::models::schedule::{are_blocks_of, are_duties_of, Schedule};
use crate::text::{decimal, decimal3, lemma_views_concat, lemma_views_push, u64_to_decimal, u64_to_decimal3, views};
use crate::validation::config::ValidationConfig;
use crate::validation::rules::block_continuity::{
    BlockContinuityChecker, BlockContinuityResult, ContinuityErrorView, ContinuityFindings,
    ContinuityWarningView,
};
use crate::validation::rules::business_rules::{
    BusinessRuleChecker, BusinessRuleResult, RuleErrorView, RuleFindings, RuleWarningView,
};
use crate::validation::rules::gtfs_integrity::{
    GtfsIntegrityChecker, GtfsIntegrityResult, IntegrityErrorView, IntegrityFindings,
    IntegrityWarningView, ReferenceData,
};
use vstd::prelude::*;
use vstd::string::*;

verus! {

/// What kind of rule an error breaks.
#[derive(Debug, Clone, Copy, PartialEq, Eq, Structural)]
pub enum ErrorCategory {
    /// A reference that the timetable does not hold.
    GtfsIntegrity,
    /// A break in the continuity of a block.
    BlockContinuity,
    /// A broken business rule.
    BusinessRule,
}

/// What kind of advice a warning gives.
#[derive(Debug, Clone, Copy, PartialEq, Eq, Structural)]
pub enum WarningCategory {
    /// A reference that the timetable does not hold.
    GtfsReference,
    /// Something about the structure of a block.
    BlockStructure,
    /// A deviation from good practice.
    BestPractice,
}

/// An error: the schedule is not fit for its purpose.
#[derive(Debug)]
pub struct ValidationError {
    /// The error's code.
    pub code: String,
    /// The kind of rule that is broken.
    pub category: ErrorCategory,
    /// What is wrong, for a reader.
    pub message: String,
    /// Where: a row, a block, a duty.
    pub context: Option<String>,
}

/// A warning: advice that leaves the schedule valid.
#[derive(Debug)]
pub struct ValidationWarning {
    /// The warning's code.
    pub code: String,
    /// The kind of advice.
    pub category: WarningCategory,
    /// What was noticed, for a reader.
    pub message: String,
    /// Where: a row, a block, a duty.
    pub context: Option<String>,
}

/// The result of a validation.
#[derive(Debug)]
pub struct ValidationResult {
    /// The errors, in the order they were found.
    pub errors: Vec<ValidationError>,
    /// The warnings, in the order they were found.
    pub warnings: Vec<ValidationWarning>,
    /// How many rows were validated.
    pub rows_validated: usize,
    /// How many blocks were validated: 0 where the blocks were not reached.
    pub blocks_validated: usize,
    /// How many duties were validated: 0 where the duties were not reached.
    pub duties_validated: usize,
    /// Whether the validation stopped because the error budget was used up.
    pub truncated: bool,
}

/// An error, with its texts as sequences of characters.
pub struct ErrorView {
    pub code: Seq<char>,
    pub category: ErrorCategory,
    pub message: Seq<char>,
    pub context: Option<Seq<char>>,
}

/// A warning, with its texts as sequences of characters.
pub struct WarningView {
    pub code: Seq<char>,
    pub category: WarningCategory,
    pub message: Seq<char>,
    pub context: Option<Seq<char>>,
}

/// A result, with its errors and warnings as views.
pub struct ResultView {
    pub errors: Seq<ErrorView>,
    pub warnings: Seq<WarningView>,
    pub rows_validated: nat,
    pub blocks_validated: nat,
    pub duties_validated: nat,
    pub truncated: bool,
}

impl View for ValidationError {
    type V = ErrorView;

    open spec fn view(&self) -> ErrorView {
        ErrorView {
            code: self.code@,
            category: self.category,
            message: self.message@,
            context: crate::text::opt_view(self.context),
        }
    }
}

impl View for ValidationWarning {
    type V = WarningView;

    open spec fn view(&self) -> WarningView {
        WarningView {
            code: self.code@,
            category: self.category,
            message: self.message@,
            context: crate::text::opt_view(self.context),
        }
    }
}

impl View for ValidationResult {
    type V = ResultView;

    open spec fn view(&self) -> ResultView {
        ResultView {
            errors: views(self.errors@),
            warnings: views(self.warnings@),
            rows_validated: self.rows_validated as nat,
            blocks_validated: self.blocks_validated as nat,
            duties_validated: self.duties_validated as nat,
            truncated: self.truncated,
        }
    }
}

/// The errors of `s` that are of the category `category`, in their order.
pub open spec fn errors_in(s: Seq<ValidationError>, category: ErrorCategory) -> Seq<ValidationError>
    decreases s.len(),
{
    if s.len() == 0 {
        Seq::empty()
    } else if s.last().category == category {
        errors_in(s.drop_last(), category).push(s.last())
    } else {
        errors_in(s.drop_last(), category)
    }
}

/// The warnings of `s` that are of the category `category`, in their order.
pub open spec fn warnings_in(s: Seq<ValidationWarning>, category: WarningCategory) -> Seq<
    ValidationWarning,
>
    decreases s.len(),
{
    if s.len() == 0 {
        Seq::empty()
    } else if s.last().category == category {
        warnings_in(s.drop_last(), category).push(s.last())
    } else {
        warnings_in(s.drop_last(), category)
    }
}

/// The items that a list of references points to.
pub open spec fn pointed<T>(v: Seq<&T>) -> Seq<T> {
    Seq::new(v.len(), |i: int| *v[i])
}

/// Where in a block a finding lies: the block, and the row where there is one.
pub open spec fn block_context(block_id: Seq<char>, row_index: Option<usize>) -> Seq<char> {
    "block: "@ + block_id + match row_index {
        Some(i) => ", row: "@ + decimal(i as nat),
        None => Seq::empty(),
    }
}

/// The error number `number` of the reference checker, as an error of the result.
pub open spec fn integrity_error(e: IntegrityErrorView, number: nat) -> ErrorView {
    ErrorView {
        code: "E"@ + decimal3(number),
        category: ErrorCategory::GtfsIntegrity,
        message: e.message,
        context: Some("row "@ + decimal(e.row_index as nat) + ", field: "@ + e.field),
    }
}

/// A warning of the reference checker, as a warning of the result.
pub open spec fn integrity_warning(w: IntegrityWarningView) -> WarningView {
    WarningView {
        code: w.code,
        category: WarningCategory::GtfsReference,
        message: w.message,
        context: Some("row "@ + decimal(w.row_index as nat)),
    }
}

/// An error of the continuity checker, as an error of the result.
pub open spec fn continuity_error(e: ContinuityErrorView) -> ErrorView {
    ErrorView {
        code: "E100"@,
        category: ErrorCategory::BlockContinuity,
        message: e.message,
        context: Some(block_context(e.block_id, e.row_index)),
    }
}

/// A warning of the continuity checker, as a warning of the result.
pub open spec fn continuity_warning(w: ContinuityWarningView) -> WarningView {
    WarningView {
        code: w.code,
        category: WarningCategory::BlockStructure,
        message: w.message,
        context: Some(block_context(w.block_id, w.row_index)),
    }
}

/// An error of the business rule checker, as an error of the result.
pub open spec fn rule_error(e: RuleErrorView) -> ErrorView {
    ErrorView {
        code: "E200"@,
        category: ErrorCategory::BusinessRule,
        message: e.message,
        context: Some(e.context),
    }
}

/// A warning of the business rule checker, as a warning of the result.
pub open spec fn rule_warning(w: RuleWarningView) -> WarningView {
    WarningView {
        code: w.code,
        category: WarningCategory::BestPractice,
        message: w.message,
        context: Some(w.context),
    }
}

/// The first `n` errors of the reference checker, numbered from 1.
pub open spec fn integrity_errors(s: Seq<IntegrityErrorView>, n: int) -> Seq<ErrorView> {
    Seq::new(n as nat, |j: int| integrity_error(s[j], (j + 1) as nat))
}

/// The first `n` warnings of the reference checker.
pub open spec fn integrity_warnings(s: Seq<IntegrityWarningView>, n: int) -> Seq<WarningView> {
    Seq::new(n as nat, |j: int| integrity_warning(s[j]))
}

/// The first `n` errors of the continuity checker.
pub open spec fn continuity_errors(s: Seq<ContinuityErrorView>, n: int) -> Seq<ErrorView> {
    Seq::new(n as nat, |j: int| continuity_error(s[j]))
}

/// The first `n` warnings of the continuity checker.
pub open spec fn continuity_warnings(s: Seq<ContinuityWarningView>, n: int) -> Seq<WarningView> {
    Seq::new(n as nat, |j: int| continuity_warning(s[j]))
}

/// The first `n` errors of the business rule checker.
pub open spec fn rule_errors(s: Seq<RuleErrorView>, n: int) -> Seq<ErrorView> {
    Seq::new(n as nat, |j: int| rule_error(s[j]))
}

/// The first `n` warnings of the business rule checker.
pub open spec fn rule_warnings(s: Seq<RuleWarningView>, n: int) -> Seq<WarningView> {
    Seq::new(n as nat, |j: int| rule_warning(s[j]))
}

/// With `have` errors collected and `more` to come, after how many of
/// those the validation stops: at the first error with which the budget is
/// reached, if there is one.
pub open spec fn stop_after(have: int, more: int, budget: Option<usize>) -> Option<int> {
    match budget {
        Some(max) => {
            let j = if max - have >= 1 {
                max - have
            } else {
                1
            };
            if j <= more {
                Some(j)
            } else {
                None
            }
        },
        None => None,
    }
}

/// The result before anything was checked.
pub open spec fn initial_result(rows: nat) -> ResultView {
    ResultView {
        errors: Seq::empty(),
        warnings: Seq::empty(),
        rows_validated: rows,
        blocks_validated: 0,
        duties_validated: 0,
        truncated: false,
    }
}

/// The budget's cap on the number of errors: the budget, and 1 for a
/// budget of 0, since the validation stops at an error.
pub open spec fn error_cap(max: usize) -> int {
    if max >= 1 {
        max as int
    } else {
        1
    }
}

impl Default for ValidationResult {
    fn default() -> (r: Self)
        ensures
            r@ == initial_result(0),
    {
        let r = ValidationResult {
            errors: Vec::new(),
            warnings: Vec::new(),
            rows_validated: 0,
            blocks_validated: 0,
            duties_validated: 0,
            truncated: false,
        };
        proof {
            assert(views(r.errors@) =~= Seq::empty());
            assert(views(r.warnings@) =~= Seq::empty());
        }
        r
    }
}

impl ValidationResult {
    /// Whether there is no error.
    pub fn is_valid(&self) -> (r: bool)
        ensures
            r == (self.errors@.len() == 0),
    {
        self.errors.len() == 0
    }

    /// The number of errors.
    pub fn error_count(&self) -> (r: usize)
        ensures
            r == self.errors@.len(),
    {
        self.errors.len()
    }

    /// The number of warnings.
    pub fn warning_count(&self) -> (r: usize)
        ensures
            r == self.warnings@.len(),
    {
        self.warnings.len()
    }

    /// The errors of the category `category`, in their order.
    pub fn errors_by_category(&self, category: ErrorCategory) -> (r: Vec<&ValidationError>)
        ensures
            pointed(r@) == errors_in(self.errors@, category),
    {
        let mut out: Vec<&ValidationError> = Vec::new();
        let mut i: usize = 0;
        proof {
            assert(pointed(out@) =~= errors_in(self.errors@.take(0), category));
        }
        while i < self.errors.len()
            invariant
                i <= self.errors.len(),
                pointed(out@) == errors_in(self.errors@.take(i as int), category),
            decreases self.errors.len() - i,
        {
            proof {
                assert(self.errors@.take(i + 1).drop_last() =~= self.errors@.take(i as int));
            }
            let ghost before = out@;
            if self.errors[i].category == category {
                out.push(&self.errors[i]);
                proof {
                    assert(pointed(out@) =~= pointed(before).push(self.errors@[i as int]));
                }
            }
            i = i + 1;
        }
        proof {
            assert(self.errors@.take(self.errors.len() as int) =~= self.errors@);
        }
        out
    }

    /// The warnings of the category `category`, in their order.
    pub fn warnings_by_category(&self, category: WarningCategory) -> (r: Vec<&ValidationWarning>)
        ensures
            pointed(r@) == warnings_in(self.warnings@, category),
    {
        let mut out: Vec<&ValidationWarning> = Vec::new();
        let mut i: usize = 0;
        proof {
            assert(pointed(out@) =~= warnings_in(self.warnings@.take(0), category));
        }
        while i < self.warnings.len()
            invariant
                i <= self.warnings.len(),
                pointed(out@) == warnings_in(self.warnings@.take(i as int), category),
            decreases self.warnings.len() - i,
        {
            proof {
                assert(self.warnings@.take(i + 1).drop_last() =~= self.warnings@.take(i as int));
            }
            let ghost before = out@;
            if self.warnings[i].category == category {
                out.push(&self.warnings[i]);
                proof {
                    assert(pointed(out@) =~= pointed(before).push(self.warnings@[i as int]));
                }
            }
            i = i + 1;
        }
        proof {
            assert(self.warnings@.take(self.warnings.len() as int) =~= self.warnings@);
        }
        out
    }
}

/// Validates schedules.
#[derive(Debug)]
pub struct Validator {
    /// The configuration.
    pub config: ValidationConfig,
}

/// The text that says where in a block a finding lies.
fn make_block_context(block_id: &str, row_index: Option<usize>) -> (r: String)
    ensures
        r@ == block_context(block_id@, row_index),
{
    let mut s = String::from_str("block: ");
    s.append(block_id);
    let ghost head = s@;
    match row_index {
        Some(i) => {
            let mut tail = String::from_str(", row: ");
            tail.append(u64_to_decimal(i as u64).as_str());
            s.append(tail.as_str());
        },
        None => {
            proof {
                assert(head + Seq::<char>::empty() =~= head);
            }
        },
    }
    s
}

/// The findings of the reference checker, as errors and warnings of the result.
fn convert_integrity(found: &GtfsIntegrityResult) -> (r: (Vec<ValidationError>, Vec<ValidationWarning>))
    ensures
        views(r.0@) == integrity_errors(found@.errors, found@.errors.len() as int),
        views(r.1@) == integrity_warnings(found@.warnings, found@.warnings.len() as int),
{
    let mut errors: Vec<ValidationError> = Vec::new();
    let mut i: usize = 0;
    proof {
        assert(views(errors@) =~= integrity_errors(found@.errors, 0));
    }
    while i < found.errors.len()
        invariant
            i <= found.errors.len(),
            views(errors@) == integrity_errors(found@.errors, i as int),
        decreases found.errors.len() - i,
    {
        let e = &found.errors[i];
        let mut code = String::from_str("E");
        code.append(u64_to_decimal3(i as u64 + 1).as_str());
        let mut context = String::from_str("row ");
        context.append(u64_to_decimal(e.row_index as u64).as_str());
        context.append(", field: ");
        context.append(e.field.as_str());
        let error = ValidationError {
            code,
            category: ErrorCategory::GtfsIntegrity,
            message: e.message.clone(),
            context: Some(context),
        };
        proof {
            lemma_views_push(errors@, error);
            assert(found@.errors[i as int] == e@);
            assert(integrity_errors(found@.errors, i as int).push(error@) =~= integrity_errors(
                found@.errors,
                i + 1,
            ));
        }
        errors.push(error);
        i = i + 1;
    }
    let mut warnings: Vec<ValidationWarning> = Vec::new();
    let mut k: usize = 0;
    proof {
        assert(views(warnings@) =~= integrity_warnings(found@.warnings, 0));
    }
    while k < found.warnings.len()
        invariant
            k <= found.warnings.len(),
            views(warnings@) == integrity_warnings(found@.warnings, k as int),
        decreases found.warnings.len() - k,
    {
        let w = &found.warnings[k];
        let mut context = String::from_str("row ");
        context.append(u64_to_decimal(w.row_index as u64).as_str());
        let warning = ValidationWarning {
            code: w.code.clone(),
            category: WarningCategory::GtfsReference,
            message: w.message.clone(),
            context: Some(context),
        };
        proof {
            lemma_views_push(warnings@, warning);
            assert(found@.warnings[k as int] == w@);
            assert(integrity_warnings(found@.warnings, k as int).push(warning@)
                =~= integrity_warnings(found@.warnings, k + 1));
        }
        warnings.push(warning);
        k = k + 1;
    }
    (errors, warnings)
}

/// The findings of the continuity checker, as errors and warnings of the result.
fn convert_continuity(found: &BlockContinuityResult) -> (r: (
    Vec<ValidationError>,
    Vec<ValidationWarning>,
))
    ensures
        views(r.0@) == continuity_errors(found@.errors, found@.errors.len() as int),
        views(r.1@) == continuity_warnings(found@.warnings, found@.warnings.len() as int),
{
    let mut errors: Vec<ValidationError> = Vec::new();
    let mut i: usize = 0;
    proof {
        assert(views(errors@) =~= continuity_errors(found@.errors, 0));
    }
    while i < found.errors.len()
        invariant
            i <= found.errors.len(),
            views(errors@) == continuity_errors(found@.errors, i as int),
        decreases found.errors.len() - i,
    {
        let e = &found.errors[i];
        let error = ValidationError {
            code: String::from_str("E100"),
            category: ErrorCategory::BlockContinuity,
            message: e.message.clone(),
            context: Some(make_block_context(e.block_id.as_str(), e.row_index)),
        };
        proof {
            lemma_views_push(errors@, error);
            assert(found@.errors[i as int] == e@);
            assert(continuity_errors(found@.errors, i as int).push(error@) =~= continuity_errors(
                found@.errors,
                i + 1,
            ));
        }
        errors.push(error);
        i = i + 1;
    }
    let mut warnings: Vec<ValidationWarning> = Vec::new();
    let mut k: usize = 0;
    proof {
        assert(views(warnings@) =~= continuity_warnings(found@.warnings, 0));
    }
    while k < found.warnings.len()
        invariant
            k <= found.warnings.len(),
            views(warnings@) == continuity_warnings(found@.warnings, k as int),
        decreases found.warnings.len() - k,
    {
        let w = &found.warnings[k];
        let warning = ValidationWarning {
            code: w.code.clone(),
            category: WarningCategory::BlockStructure,
            message: w.message.clone(),
            context: Some(make_block_context(w.block_id.as_str(), w.row_index)),
        };
        proof {
            lemma_views_push(warnings@, warning);
            assert(found@.warnings[k as int] == w@);
            assert(continuity_warnings(found@.warnings, k as int).push(warning@)
                =~= continuity_warnings(found@.warnings, k + 1));
        }
        warnings.push(warning);
        k = k + 1;
    }
    (errors, warnings)
}

/// The findings of the business rule checker, as errors and warnings of the result.
fn convert_rules(found: &BusinessRuleResult) -> (r: (Vec<ValidationError>, Vec<ValidationWarning>))
    ensures
        views(r.0@) == rule_errors(found@.errors, found@.errors.len() as int),
        views(r.1@) == rule_warnings(found@.warnings, found@.warnings.len() as int),
{
    let mut errors: Vec<ValidationError> = Vec::new();
    let mut i: usize = 0;
    proof {
        assert(views(errors@) =~= rule_errors(found@.errors, 0));
    }
    while i < found.errors.len()
        invariant
            i <= found.errors.len(),
            views(errors@) == rule_errors(found@.errors, i as int),
        decreases found.errors.len() - i,
    {
        let e = &found.errors[i];
        let error = ValidationError {
            code: String::from_str("E200"),
            category: ErrorCategory::BusinessRule,
            message: e.message.clone(),
            context: Some(e.context.clone()),
        };
        proof {
            lemma_views_push(errors@, error);
            assert(found@.errors[i as int] == e@);
            assert(rule_errors(found@.errors, i as int).push(error@) =~= rule_errors(
                found@.errors,
                i + 1,
            ));
        }
        errors.push(error);
        i = i + 1;
    }
    let mut warnings: Vec<ValidationWarning> = Vec::new();
    let mut k: usize = 0;
    proof {
        assert(views(warnings@) =~= rule_warnings(found@.warnings, 0));
    }
    while k < found.warnings.len()
        invariant
            k <= found.warnings.len(),
            views(warnings@) == rule_warnings(found@.warnings, k as int),
        decreases found.warnings.len() - k,
    {
        let w = &found.warnings[k];
        let warning = ValidationWarning {
            code: w.code.clone(),
            category: WarningCategory::BestPractice,
            message: w.message.clone(),
            context: Some(w.context.clone()),
        };
        proof {
            lemma_views_push(warnings@, warning);
            assert(found@.warnings[k as int] == w@);
            assert(rule_warnings(found@.warnings, k as int).push(warning@) =~= rule_warnings(
                found@.warnings,
                k + 1,
            ));
        }
        warnings.push(warning);
        k = k + 1;
    }
    (errors, warnings)
}

impl Validator {
    /// The result `acc` with the findings of one more checker. The errors
    /// are taken one by one; at the error with which the budget is reached
    /// the result is truncated, and neither the later errors nor the
    /// warnings of the checker are taken. Warnings are taken only where
    /// they are wanted.
    pub open spec fn absorb(&self, acc: ResultView, errors: Seq<ErrorView>, warnings: Seq<WarningView>) -> ResultView {
        match stop_after(acc.errors.len() as int, errors.len() as int, self.config.max_errors) {
            Some(j) => ResultView { errors: acc.errors + errors.take(j), truncated: true, ..acc },
            None => ResultView {
                errors: acc.errors + errors,
                warnings: acc.warnings + (if self.config.generate_warnings {
                    warnings
                } else {
                    Seq::empty()
                }),
                ..acc
            },
        }
    }

    /// The result after the reference checker.
    pub open spec fn after_integrity(&self, rows: nat, integrity: Option<IntegrityFindings>) -> ResultView {
        match integrity {
            Some(found) => self.absorb(
                initial_result(rows),
                integrity_errors(found.errors, found.errors.len() as int),
                integrity_warnings(found.warnings, found.warnings.len() as int),
            ),
            None => initial_result(rows),
        }
    }

    /// The result after the continuity checker, which runs where the
    /// validation was not truncated and blocks are to be checked.
    pub open spec fn after_continuity(&self, before: ResultView, blocks: nat, found: ContinuityFindings) -> ResultView {
        if !before.truncated && self.config.validate_block_continuity {
            self.absorb(
                ResultView { blocks_validated: blocks, ..before },
                continuity_errors(found.errors, found.errors.len() as int),
                continuity_warnings(found.warnings, found.warnings.len() as int),
            )
        } else {
            before
        }
    }

    /// The result after the business rule checker has checked the rows.
    pub open spec fn after_rules(&self, before: ResultView, found: RuleFindings) -> ResultView {
        if !before.truncated {
            self.absorb(
                before,
                rule_errors(found.errors, found.errors.len() as int),
                rule_warnings(found.warnings, found.warnings.len() as int),
            )
        } else {
            before
        }
    }

    /// The result after the business rule checker has checked the duties,
    /// which it does where the validation was not truncated and duties are
    /// to be checked.
    pub open spec fn after_duties(&self, before: ResultView, duties: nat, found: RuleFindings) -> ResultView {
        if !before.truncated && self.config.validate_duty_constraints {
            self.absorb(
                ResultView { duties_validated: duties, ..before },
                rule_errors(found.errors, found.errors.len() as int),
                rule_warnings(found.warnings, found.warnings.len() as int),
            )
        } else {
            before
        }
    }

    /// The result of a validation, from what the checkers find.
    pub open spec fn merged(
        &self,
        rows: nat,
        integrity: Option<IntegrityFindings>,
        blocks: nat,
        continuity: ContinuityFindings,
        rules: RuleFindings,
        duties: nat,
        duty_rules: RuleFindings,
    ) -> ResultView {
        self.after_duties(
            self.after_rules(
                self.after_continuity(self.after_integrity(rows, integrity), blocks, continuity),
                rules,
            ),
            duties,
            duty_rules,
        )
    }

    /// The findings that the result of validating `schedule` is merged from.
    pub open spec fn result_for(&self, schedule: Schedule, integrity: Option<IntegrityFindings>) -> ResultView {
        let blocks = schedule.blocks.unwrap().entries@;
        let duties = schedule.duties.unwrap().entries@;
        self.merged(
            schedule.rows@.len(),
            integrity,
            blocks.len(),
            (BlockContinuityChecker { config: self.config }).schedule_findings(blocks),
            (BusinessRuleChecker { config: self.config }).schedule_findings(schedule.rows@),
            duties.len(),
            (BusinessRuleChecker { config: self.config }).all_duties_findings(duties),
        )
    }

    /// Whether `r` keeps to the error budget: with a budget, it holds no
    /// more errors than the budget's cap, and it is truncated exactly where
    /// it holds that many; without a budget it is never truncated.
    pub open spec fn keeps_budget(&self, r: ResultView) -> bool {
        match self.config.max_errors {
            Some(max) => r.errors.len() <= error_cap(max) && (r.truncated <==> r.errors.len()
                == error_cap(max)),
            None => !r.truncated,
        }
    }

    /// A validator with the configuration `config`.
    pub fn new(config: ValidationConfig) -> (r: Self)
        ensures
            r.config == config,
    {
        Validator { config }
    }

    /// A validator with the standard configuration.
    pub fn default_config() -> (r: Self)
        ensures
            r.config == (ValidationConfig {
                gtfs_compliance: crate::validation::config::GtfsComplianceLevel::Standard,
                business_rules: crate::validation::config::default_rules(),
                validate_block_continuity: true,
                validate_duty_constraints: true,
                generate_warnings: true,
                max_errors: None,
            }),
    {
        Validator { config: ValidationConfig::new() }
    }

    /// Takes the findings of one checker into the result.
    fn take_findings(
        &self,
        result: &mut ValidationResult,
        errors: Vec<ValidationError>,
        warnings: Vec<ValidationWarning>,
    )
        requires
            !old(result).truncated,
        ensures
            final(result)@ == self.absorb(old(result)@, views(errors@), views(warnings@)),
    {
        let ghost before = *result;
        let mut errors = errors;
        let mut warnings = warnings;
        let ghost all = errors@;
        let have = result.errors.len();
        let stop: Option<usize> = match self.config.max_errors {
            Some(max) => {
                let j: usize = if max > have {
                    max - have
                } else {
                    1
                };
                if j <= errors.len() {
                    Some(j)
                } else {
                    None
                }
            },
            None => None,
        };
        match stop {
            Some(j) => {
                errors.truncate(j);
                proof {
                    lemma_views_concat(before.errors@, errors@);
                    assert(views(errors@) =~= views(all).take(j as int));
                }
                result.errors.append(&mut errors);
                result.truncated = true;
            },
            None => {
                proof {
                    lemma_views_concat(before.errors@, errors@);
                    lemma_views_concat(before.warnings@, warnings@);
                    assert(views(before.warnings@) + Seq::<WarningView>::empty() =~= views(
                        before.warnings@,
                    ));
                }
                result.errors.append(&mut errors);
                if self.config.generate_warnings {
                    result.warnings.append(&mut warnings);
                }
            },
        }
    }

    /// Runs the checkers that need no timetable, from the result `result` on.
    fn check_structure(&self, schedule: &Schedule, result: ValidationResult) -> (r: ValidationResult)
        requires
            schedule.blocks is Some,
            schedule.duties is Some,
        ensures
            r@ == self.after_duties(
                self.after_rules(
                    self.after_continuity(
                        result@,
                        schedule.blocks.unwrap().entries@.len(),
                        (BlockContinuityChecker { config: self.config }).schedule_findings(
                            schedule.blocks.unwrap().entries@,
                        ),
                    ),
                    (BusinessRuleChecker { config: self.config }).schedule_findings(schedule.rows@),
                ),
                schedule.duties.unwrap().entries@.len(),
                (BusinessRuleChecker { config: self.config }).all_duties_findings(
                    schedule.duties.unwrap().entries@,
                ),
            ),
    {
        let mut result = result;
        let blocks = match &schedule.blocks {
            Some(m) => &m.entries,
            None => {
                return result;
            },
        };
        let duties = match &schedule.duties {
            Some(m) => &m.entries,
            None => {
                return result;
            },
        };
        if !result.truncated && self.config.validate_block_continuity {
            let checker = BlockContinuityChecker::new(&self.config);
            let found = checker.check_blocks(blocks);
            result.blocks_validated = blocks.len();
            let (errors, warnings) = convert_continuity(&found);
            self.take_findings(&mut result, errors, warnings);
        }
        let checker = BusinessRuleChecker::new(&self.config);
        if !result.truncated {
            let found = checker.check_schedule(schedule);
            let (errors, warnings) = convert_rules(&found);
            self.take_findings(&mut result, errors, warnings);
        }
        if !result.truncated && self.config.validate_duty_constraints {
            let found = checker.check_duty_list(duties);
            result.duties_validated = duties.len();
            let (errors, warnings) = convert_rules(&found);
            self.take_findings(&mut result, errors, warnings);
        }
        result
    }

    /// The result before anything was checked.
    fn start(schedule: &Schedule) -> (r: ValidationResult)
        ensures
            r@ == initial_result(schedule.rows@.len()),
    {
        let r = ValidationResult {
            errors: Vec::new(),
            warnings: Vec::new(),
            rows_validated: schedule.rows.len(),
            blocks_validated: 0,
            duties_validated: 0,
            truncated: false,
        };
        proof {
            assert(views(r.errors@) =~= Seq::empty());
            assert(views(r.warnings@) =~= Seq::empty());
        }
        r
    }

    /// Validates `schedule` against the timetable `reference` and against
    /// the rules.
    ///
    /// Blocks and duties are derived from the rows as they are now. The
    /// checkers run in the order references, block continuity, business
    /// rules, duties; the result is merged from their findings and keeps to
    /// the error budget.
    pub fn validate(&self, schedule: &mut Schedule, reference: &ReferenceData) -> (r: ValidationResult)
        ensures
            final(schedule).same_rows_as(old(schedule)),
            final(schedule).blocks is Some,
            final(schedule).duties is Some,
            are_blocks_of(final(schedule).blocks.unwrap().entries@, old(schedule).rows@),
            are_duties_of(final(schedule).duties.unwrap().entries@, old(schedule).rows@),
            r@ == self.result_for(
                *final(schedule),
                Some(reference.rules(self.config).schedule_findings(old(schedule).rows@)),
            ),
            self.keeps_budget(r@),
    {
        schedule.derive_blocks();
        schedule.derive_duties();
        let mut result = Self::start(schedule);
        let checker = GtfsIntegrityChecker::new(reference, &self.config);
        let found = checker.check_schedule(schedule);
        let (errors, warnings) = convert_integrity(&found);
        self.take_findings(&mut result, errors, warnings);
        let result = self.check_structure(schedule, result);
        proof {
            lemma_merged_keeps_budget(
                *self,
                schedule.rows@.len(),
                Some(reference.rules(self.config).schedule_findings(schedule.rows@)),
                schedule.blocks.unwrap().entries@.len(),
                (BlockContinuityChecker { config: self.config }).schedule_findings(
                    schedule.blocks.unwrap().entries@,
                ),
                (BusinessRuleChecker { config: self.config }).schedule_findings(schedule.rows@),
                schedule.duties.unwrap().entries@.len(),
                (BusinessRuleChecker { config: self.config }).all_duties_findings(
                    schedule.duties.unwrap().entries@,
                ),
            );
        }
        result
    }

    /// Validates `schedule` against the rules alone, without a timetable.
    pub fn validate_structure(&self, schedule: &mut Schedule) -> (r: ValidationResult)
        ensures
            final(schedule).same_rows_as(old(schedule)),
            final(schedule).blocks is Some,
            final(schedule).duties is Some,
            are_blocks_of(final(schedule).blocks.unwrap().entries@, old(schedule).rows@),
            are_duties_of(final(schedule).duties.unwrap().entries@, old(schedule).rows@),
            r@ == self.result_for(*final(schedule), None),
            self.keeps_budget(r@),
    {
        schedule.derive_blocks();
        schedule.derive_duties();
        let result = Self::start(schedule);
        let result = self.check_structure(schedule, result);
        proof {
            lemma_merged_keeps_budget(
                *self,
                schedule.rows@.len(),
                None,
                schedule.blocks.unwrap().entries@.len(),
                (BlockContinuityChecker { config: self.config }).schedule_findings(
                    schedule.blocks.unwrap().entries@,
                ),
                (BusinessRuleChecker { config: self.config }).schedule_findings(schedule.rows@),
                schedule.duties.unwrap().entries@.len(),
                (BusinessRuleChecker { config: self.config }).all_duties_findings(
                    schedule.duties.unwrap().entries@,
                ),
            );
        }
        result
    }
}

/// Taking the findings of one more checker keeps the result within the budget.
pub proof fn lemma_absorb_keeps_budget(
    validator: Validator,
    acc: ResultView,
    errors: Seq<ErrorView>,
    warnings: Seq<WarningView>,
)
    requires
        validator.keeps_budget(acc),
        !acc.truncated,
    ensures
        validator.keeps_budget(validator.absorb(acc, errors, warnings)),
{
}

/// The result of a validation never holds more errors than the budget's
/// cap, and it is truncated exactly where the budget was used up.
pub proof fn lemma_merged_keeps_budget(
    validator: Validator,
    rows: nat,
    integrity: Option<IntegrityFindings>,
    blocks: nat,
    continuity: ContinuityFindings,
    rules: RuleFindings,
    duties: nat,
    duty_rules: RuleFindings,
)
    ensures
        validator.keeps_budget(
            validator.merged(rows, integrity, blocks, continuity, rules, duties, duty_rules),
        ),
{
    let r0 = initial_result(rows);
    assert(validator.keeps_budget(r0));
    let r1 = validator.after_integrity(rows, integrity);
    if integrity is Some {
        lemma_absorb_keeps_budget(
            validator,
            r0,
            integrity_errors(integrity.unwrap().errors, integrity.unwrap().errors.len() as int),
            integrity_warnings(
                integrity.unwrap().warnings,
                integrity.unwrap().warnings.len() as int,
            ),
        );
    }
    let r2 = validator.after_continuity(r1, blocks, continuity);
    if !r1.truncated && validator.config.validate_block_continuity {
        lemma_absorb_keeps_budget(
            validator,
            ResultView { blocks_validated: blocks, ..r1 },
            continuity_errors(continuity.errors, continuity.errors.len() as int),
            continuity_warnings(continuity.warnings, continuity.warnings.len() as int),
        );
    }
    let r3 = validator.after_rules(r2, rules);
    if !r2.truncated {
        lemma_absorb_keeps_budget(
            validator,
            r2,
            rule_errors(rules.errors, rules.errors.len() as int),
            rule_warnings(rules.warnings, rules.warnings.len() as int),
        );
    }
    if !r3.truncated && validator.config.validate_duty_constraints {
        lemma_absorb_keeps_budget(
            validator,
            ResultView { duties_validated: duties, ..r3 },
            rule_errors(duty_rules.errors, duty_rules.errors.len() as int),
            rule_warnings(duty_rules.warnings, duty_rules.warnings.len() as int),
        );
    }
}

/// With a budget of at least 1, a validation never returns more errors than
/// the budget, and its result is truncated whenever the budget is reached.
pub proof fn lemma_never_more_errors_than_budget(
    validator: Validator,
    max: usize,
    rows: nat,
    integrity: Option<IntegrityFindings>,
    blocks: nat,
    continuity: ContinuityFindings,
    rules: RuleFindings,
    duties: nat,
    duty_rules: RuleFindings,
)
    requires
        validator.config.max_errors == Some(max),
        max >= 1,
    ensures
        ({
            let r = validator.merged(
                rows,
                integrity,
                blocks,
                continuity,
                rules,
                duties,
                duty_rules,
            );
            r.errors.len() <= max && (r.errors.len() == max <==> r.truncated)
        }),
{
    lemma_merged_keeps_budget(
        validator,
        rows,
        integrity,
        blocks,
        continuity,
        rules,
        duties,
        duty_rules,
    );
}

/// The errors of all checkers that take part in a validation, in the
/// order of the checkers, as they stand in a result.
pub open spec fn all_errors(
    validator: Validator,
    integrity: Option<IntegrityFindings>,
    continuity: ContinuityFindings,
    rules: RuleFindings,
    duty_rules: RuleFindings,
) -> Seq<ErrorView> {
    (match integrity {
        Some(found) => integrity_errors(found.errors, found.errors.len() as int),
        None => Seq::empty(),
    }) + (if validator.config.validate_block_continuity {
        continuity_errors(continuity.errors, continuity.errors.len() as int)
    } else {
        Seq::empty()
    }) + rule_errors(rules.errors, rules.errors.len() as int) + (
    if validator.config.validate_duty_constraints {
        rule_errors(duty_rules.errors, duty_rules.errors.len() as int)
    } else {
        Seq::empty()
    })
}

/// Whether `part` is the beginning of `whole`.
pub open spec fn is_beginning_of(part: Seq<ErrorView>, whole: Seq<ErrorView>) -> bool {
    part.len() <= whole.len() && part == whole.take(part.len() as int)
}

/// Taking the findings of one more checker keeps the errors of the result
/// the beginning of the errors found, and all of them while it is not
/// truncated.
proof fn lemma_absorb_is_beginning(
    validator: Validator,
    acc: ResultView,
    errors: Seq<ErrorView>,
    warnings: Seq<WarningView>,
    rest: Seq<ErrorView>,
)
    ensures
        is_beginning_of(validator.absorb(acc, errors, warnings).errors, acc.errors + errors + rest),
        !validator.absorb(acc, errors, warnings).truncated ==> validator.absorb(
            acc,
            errors,
            warnings,
        ).errors == acc.errors + errors,
{
    let whole = acc.errors + errors + rest;
    let after = validator.absorb(acc, errors, warnings).errors;
    match stop_after(acc.errors.len() as int, errors.len() as int, validator.config.max_errors) {
        Some(j) => {
            assert(after =~= whole.take(after.len() as int));
        },
        None => {
            assert(after =~= whole.take(after.len() as int));
        },
    }
}

/// A truncated result is a lower bound: its errors are the first of the
/// errors that the checkers found, in their order, and a result that is
/// not truncated holds them all.
pub proof fn lemma_result_is_lower_bound(
    validator: Validator,
    rows: nat,
    integrity: Option<IntegrityFindings>,
    blocks: nat,
    continuity: ContinuityFindings,
    rules: RuleFindings,
    duties: nat,
    duty_rules: RuleFindings,
)
    ensures
        ({
            let r = validator.merged(
                rows,
                integrity,
                blocks,
                continuity,
                rules,
                duties,
                duty_rules,
            );
            let all = all_errors(validator, integrity, continuity, rules, duty_rules);
            is_beginning_of(r.errors, all) && (!r.truncated ==> r.errors == all)
        }),
{
    let none = Seq::<ErrorView>::empty();
    let e1 = match integrity {
        Some(found) => integrity_errors(found.errors, found.errors.len() as int),
        None => none,
    };
    let e2 = if validator.config.validate_block_continuity {
        continuity_errors(continuity.errors, continuity.errors.len() as int)
    } else {
        none
    };
    let e3 = rule_errors(rules.errors, rules.errors.len() as int);
    let e4 = if validator.config.validate_duty_constraints {
        rule_errors(duty_rules.errors, duty_rules.errors.len() as int)
    } else {
        none
    };
    let all = all_errors(validator, integrity, continuity, rules, duty_rules);
    assert(all == e1 + e2 + e3 + e4);
    let r0 = initial_result(rows);
    let r1 = validator.after_integrity(rows, integrity);
    if integrity is Some {
        lemma_absorb_is_beginning(
            validator,
            r0,
            e1,
            integrity_warnings(
                integrity.unwrap().warnings,
                integrity.unwrap().warnings.len() as int,
            ),
            e2 + e3 + e4,
        );
    }
    assert(r0.errors + e1 + (e2 + e3 + e4) =~= all);
    assert(r0.errors + e1 =~= e1);
    assert(all.take(0) =~= none);
    assert(is_beginning_of(r1.errors, all));
    assert(!r1.truncated ==> r1.errors == e1);
    let r2 = validator.after_continuity(r1, blocks, continuity);
    if !r1.truncated {
        if validator.config.validate_block_continuity {
            lemma_absorb_is_beginning(
                validator,
                ResultView { blocks_validated: blocks, ..r1 },
                e2,
                continuity_warnings(continuity.warnings, continuity.warnings.len() as int),
                e3 + e4,
            );
        }
        assert(e1 + e2 + (e3 + e4) =~= all);
        assert(e1 + none =~= e1);
    }
    assert(is_beginning_of(r2.errors, all));
    assert(!r2.truncated ==> r2.errors == e1 + e2);
    let r3 = validator.after_rules(r2, rules);
    if !r2.truncated {
        lemma_absorb_is_beginning(
            validator,
            r2,
            e3,
            rule_warnings(rules.warnings, rules.warnings.len() as int),
            e4,
        );
    }
    assert(is_beginning_of(r3.errors, all));
    assert(!r3.truncated ==> r3.errors == e1 + e2 + e3);
    if !r3.truncated {
        if validator.config.validate_duty_constraints {
            lemma_absorb_is_beginning(
                validator,
                ResultView { duties_validated: duties, ..r3 },
                e4,
                rule_warnings(duty_rules.warnings, duty_rules.warnings.len() as int),
                none,
            );
            assert(e1 + e2 + e3 + e4 + none =~= all);
        } else {
            assert(e1 + e2 + e3 + none =~= e1 + e2 + e3);
        }
    }
}

} // verus!
