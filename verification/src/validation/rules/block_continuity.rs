//! The continuity of a block: its rows follow one another in time and
//! place, and the block is neither too short nor too long.

use crate::models::block::Block;
use crate::models::row_seq::{gap_after, gap_between, place_break_after, place_changes};
use crate::models::schedule::{are_blocks_of, Schedule};
use crate::models::schedule_row::ScheduleRow;
use crate::text::{decimal, lemma_views_concat, lemma_views_push, text_or, u64_to_decimal, views};
use crate::validation::config::{BusinessRules, ValidationConfig};
use vstd::prelude::*;
use vstd::string::*;

verus! {

/// What is wrong with a block.
#[derive(Debug, Clone, Copy, PartialEq, Eq, Structural)]
pub enum BlockContinuityErrorType {
    /// A row ends at another place than the next row starts at.
    LocationDiscontinuity,
    /// The time between two rows is too long.
    TimeGap,
    /// A row starts before the row in front of it ends.
    ChronologyError,
    /// The block has no pull-out.
    MissingPullOut,
    /// The block has no pull-in.
    MissingPullIn,
    /// The block is too short.
    DurationTooShort,
    /// The block is too long.
    DurationTooLong,
}

/// An error in a block.
#[derive(Debug)]
pub struct BlockContinuityError {
    pub error_type: BlockContinuityErrorType,
    pub block_id: String,
    pub row_index: Option<usize>,
    pub message: String,
}

/// A warning about a block.
#[derive(Debug)]
pub struct BlockContinuityWarning {
    pub code: String,
    pub block_id: String,
    pub row_index: Option<usize>,
    pub message: String,
}

/// What the checker found.
#[derive(Debug)]
pub struct BlockContinuityResult {
    pub errors: Vec<BlockContinuityError>,
    pub warnings: Vec<BlockContinuityWarning>,
}

/// An error, with its texts as sequences of characters.
pub struct ContinuityErrorView {
    pub error_type: BlockContinuityErrorType,
    pub block_id: Seq<char>,
    pub row_index: Option<usize>,
    pub message: Seq<char>,
}

/// A warning, with its texts as sequences of characters.
pub struct ContinuityWarningView {
    pub code: Seq<char>,
    pub block_id: Seq<char>,
    pub row_index: Option<usize>,
    pub message: Seq<char>,
}

/// Errors and warnings, in the order they were found.
pub struct ContinuityFindings {
    pub errors: Seq<ContinuityErrorView>,
    pub warnings: Seq<ContinuityWarningView>,
}

impl View for BlockContinuityError {
    type V = ContinuityErrorView;

    open spec fn view(&self) -> ContinuityErrorView {
        ContinuityErrorView {
            error_type: self.error_type,
            block_id: self.block_id@,
            row_index: self.row_index,
            message: self.message@,
        }
    }
}

impl View for BlockContinuityWarning {
    type V = ContinuityWarningView;

    open spec fn view(&self) -> ContinuityWarningView {
        ContinuityWarningView {
            code: self.code@,
            block_id: self.block_id@,
            row_index: self.row_index,
            message: self.message@,
        }
    }
}

impl View for BlockContinuityResult {
    type V = ContinuityFindings;

    open spec fn view(&self) -> ContinuityFindings {
        ContinuityFindings { errors: views(self.errors@), warnings: views(self.warnings@) }
    }
}

impl ContinuityFindings {
    /// No finding.
    pub open spec fn none() -> ContinuityFindings {
        ContinuityFindings { errors: Seq::empty(), warnings: Seq::empty() }
    }

    /// These findings, and then those of `other`.
    pub open spec fn plus(self, other: ContinuityFindings) -> ContinuityFindings {
        ContinuityFindings {
            errors: self.errors + other.errors,
            warnings: self.warnings + other.warnings,
        }
    }
}

/// Whether row `i` starts before the row in front of it ends, both times known.
pub open spec fn starts_too_early(s: Seq<ScheduleRow>, i: int) -> bool {
    &&& 1 <= i < s.len()
    &&& s[i].spec_start() is Some
    &&& s[i - 1].spec_end() is Some
    &&& s[i].spec_start().unwrap() < s[i - 1].spec_end().unwrap()
}

/// The error for row `i`, which starts before the row in front of it ends.
pub open spec fn chronology_error(block_id: Seq<char>, s: Seq<ScheduleRow>, i: int) -> ContinuityErrorView {
    ContinuityErrorView {
        error_type: BlockContinuityErrorType::ChronologyError,
        block_id,
        row_index: Some(i as usize),
        message: "Row "@ + decimal(i as nat) + " starts at "@ + decimal(
            s[i].spec_start().unwrap() as nat,
        ) + " but previous row ends at "@ + decimal(s[i - 1].spec_end().unwrap() as nat),
    }
}

/// The chronology errors of the rows below `n`.
pub open spec fn chronology_errors(block_id: Seq<char>, s: Seq<ScheduleRow>, n: int) -> Seq<
    ContinuityErrorView,
>
    decreases n,
{
    if n <= 0 {
        Seq::empty()
    } else if starts_too_early(s, n - 1) {
        chronology_errors(block_id, s, n - 1).push(chronology_error(block_id, s, n - 1))
    } else {
        chronology_errors(block_id, s, n - 1)
    }
}

/// The warning for row `i`, which ends at another place than the next starts at.
pub open spec fn place_warning(block_id: Seq<char>, s: Seq<ScheduleRow>, i: int) -> ContinuityWarningView {
    ContinuityWarningView {
        code: "W101"@,
        block_id,
        row_index: Some(i as usize),
        message: "Location discontinuity: row "@ + decimal(i as nat) + " ends at '"@ + text_or(
            s[i].end_place,
            "?"@,
        ) + "' but row "@ + decimal((i + 1) as nat) + " starts at '"@ + text_or(
            s[i + 1].start_place,
            "?"@,
        ) + "'"@,
    }
}

/// The warnings for the changes of place behind the rows below `n`.
pub open spec fn place_warnings(block_id: Seq<char>, s: Seq<ScheduleRow>, n: int) -> Seq<
    ContinuityWarningView,
>
    decreases n,
{
    if n <= 0 {
        Seq::empty()
    } else if place_break_after(s, n - 1) {
        place_warnings(block_id, s, n - 1).push(place_warning(block_id, s, n - 1))
    } else {
        place_warnings(block_id, s, n - 1)
    }
}

/// Whether the gap behind row `i` is longer than `max_gap` seconds.
pub open spec fn gap_too_long(s: Seq<ScheduleRow>, i: int, max_gap: int) -> bool {
    gap_after(s, i) is Some && gap_after(s, i).unwrap() > max_gap
}

/// The warning for the long gap behind row `i`.
pub open spec fn gap_warning(block_id: Seq<char>, s: Seq<ScheduleRow>, i: int) -> ContinuityWarningView {
    ContinuityWarningView {
        code: "W102"@,
        block_id,
        row_index: Some(i as usize),
        message: "Large time gap of "@ + decimal(gap_after(s, i).unwrap() as nat)
            + " seconds between rows "@ + decimal(i as nat) + " and "@ + decimal((i + 1) as nat),
    }
}

/// The warnings for the long gaps behind the rows below `n`.
pub open spec fn gap_warnings(block_id: Seq<char>, s: Seq<ScheduleRow>, max_gap: int, n: int) -> Seq<
    ContinuityWarningView,
>
    decreases n,
{
    if n <= 0 {
        Seq::empty()
    } else if gap_too_long(s, n - 1, max_gap) {
        gap_warnings(block_id, s, max_gap, n - 1).push(gap_warning(block_id, s, n - 1))
    } else {
        gap_warnings(block_id, s, max_gap, n - 1)
    }
}

/// The error for a block that lasts less than the minimum.
pub open spec fn too_short_error(block_id: Seq<char>, duration: u32, min: u32) -> ContinuityErrorView {
    ContinuityErrorView {
        error_type: BlockContinuityErrorType::DurationTooShort,
        block_id,
        row_index: None,
        message: "Block duration "@ + decimal(duration as nat) + " seconds is less than minimum "@
            + decimal(min as nat) + " seconds"@,
    }
}

/// The error for a block that lasts more than the maximum.
pub open spec fn too_long_error(block_id: Seq<char>, duration: u32, max: u32) -> ContinuityErrorView {
    ContinuityErrorView {
        error_type: BlockContinuityErrorType::DurationTooLong,
        block_id,
        row_index: None,
        message: "Block duration "@ + decimal(duration as nat) + " seconds exceeds maximum "@
            + decimal(max as nat) + " seconds"@,
    }
}

/// The errors for the duration of a block: below the minimum, where there
/// is one, and above the maximum.
pub open spec fn duration_errors(block_id: Seq<char>, duration: Option<u32>, rules: BusinessRules) -> Seq<
    ContinuityErrorView,
> {
    match duration {
        Some(d) => (if d < rules.min_block_duration_seconds {
            seq![too_short_error(block_id, d, rules.min_block_duration_seconds)]
        } else {
            Seq::empty()
        }) + (if d > rules.max_block_duration_seconds {
            seq![too_long_error(block_id, d, rules.max_block_duration_seconds)]
        } else {
            Seq::empty()
        }),
        None => Seq::empty(),
    }
}

/// The warning for a block without a pull-out row.
pub open spec fn no_pull_out_warning(block_id: Seq<char>) -> ContinuityWarningView {
    ContinuityWarningView {
        code: "W103"@,
        block_id,
        row_index: None,
        message: "Block has no explicit pull-out row"@,
    }
}

/// The warning for a block without a pull-in row.
pub open spec fn no_pull_in_warning(block_id: Seq<char>) -> ContinuityWarningView {
    ContinuityWarningView {
        code: "W104"@,
        block_id,
        row_index: None,
        message: "Block has no explicit pull-in row"@,
    }
}

/// The warnings for a missing pull-out and a missing pull-in, where
/// warnings are wanted.
pub open spec fn pull_warnings(block: Block, wanted: bool) -> Seq<ContinuityWarningView> {
    (if wanted && !block.has_pull_out() {
        seq![no_pull_out_warning(block.block_id@)]
    } else {
        Seq::empty()
    }) + (if wanted && !block.has_pull_in() {
        seq![no_pull_in_warning(block.block_id@)]
    } else {
        Seq::empty()
    })
}

impl Default for BlockContinuityResult {
    fn default() -> (r: Self)
        ensures
            r@ == ContinuityFindings::none(),
    {
        let r = BlockContinuityResult { errors: Vec::new(), warnings: Vec::new() };
        proof {
            assert(views(r.errors@) =~= Seq::empty());
            assert(views(r.warnings@) =~= Seq::empty());
        }
        r
    }
}

impl BlockContinuityResult {
    /// Whether there is no error.
    pub fn is_valid(&self) -> (r: bool)
        ensures
            r == (self.errors@.len() == 0),
    {
        self.errors.len() == 0
    }
}

/// Checks the continuity of blocks.
#[derive(Debug)]
pub struct BlockContinuityChecker {
    /// The configuration.
    pub config: ValidationConfig,
}

impl BlockContinuityChecker {
    /// The longest gap between two rows that is not reported: ten times
    /// the shortest layover.
    pub open spec fn max_gap(&self) -> int {
        self.config.business_rules.min_layover_seconds * 10
    }

    /// What is reported for `block`.
    ///
    /// Errors: every row that starts before the row in front of it ends,
    /// then a duration below the minimum or above the maximum. Warnings:
    /// every change of place between two rows, every gap longer than ten
    /// times the shortest layover, and, where warnings are wanted, a missing
    /// pull-out and a missing pull-in.
    pub open spec fn block_findings(&self, block: Block) -> ContinuityFindings {
        let id = block.block_id@;
        let s = block.rows@;
        ContinuityFindings {
            errors: chronology_errors(id, s, s.len() as int) + duration_errors(
                id,
                block.spec_duration(),
                self.config.business_rules,
            ),
            warnings: place_warnings(id, s, s.len() - 1) + gap_warnings(
                id,
                s,
                self.max_gap(),
                s.len() - 1,
            ) + pull_warnings(block, self.config.generate_warnings),
        }
    }

    /// What is reported for the first `n` of `blocks`, and whether the error
    /// budget was used up on the way.
    pub open spec fn blocks_findings(&self, blocks: Seq<Block>, n: int) -> (ContinuityFindings, bool)
        decreases n,
    {
        if n <= 0 {
            (ContinuityFindings::none(), false)
        } else {
            let (before, stopped) = self.blocks_findings(blocks, n - 1);
            if stopped {
                (before, true)
            } else {
                let now = before.plus(self.block_findings(blocks[n - 1]));
                (now, self.config.budget_reached(now.errors.len() as int))
            }
        }
    }

    /// What is reported for all of `blocks`.
    pub open spec fn schedule_findings(&self, blocks: Seq<Block>) -> ContinuityFindings {
        self.blocks_findings(blocks, blocks.len() as int).0
    }

    /// A checker with the configuration `config`.
    pub fn new(config: &ValidationConfig) -> (r: Self)
        ensures
            r.config == *config,
    {
        BlockContinuityChecker { config: *config }
    }

    /// The chronology errors of a block.
    fn check_chronology(&self, block: &Block) -> (r: Vec<BlockContinuityError>)
        ensures
            views(r@) == chronology_errors(block.block_id@, block.rows@, block.rows@.len() as int),
    {
        let mut errors: Vec<BlockContinuityError> = Vec::new();
        let mut i: usize = 0;
        proof {
            assert(views(errors@) =~= Seq::empty());
        }
        while i < block.rows.len()
            invariant
                i <= block.rows.len(),
                views(errors@) == chronology_errors(block.block_id@, block.rows@, i as int),
            decreases block.rows.len() - i,
        {
            if i > 0 {
                match (block.rows[i].start_time_seconds(), block.rows[i - 1].end_time_seconds()) {
                    (Some(start), Some(prev)) => {
                        if start < prev {
                            let mut message = String::from_str("Row ");
                            message.append(u64_to_decimal(i as u64).as_str());
                            message.append(" starts at ");
                            message.append(u64_to_decimal(start as u64).as_str());
                            message.append(" but previous row ends at ");
                            message.append(u64_to_decimal(prev as u64).as_str());
                            let error = BlockContinuityError {
                                error_type: BlockContinuityErrorType::ChronologyError,
                                block_id: block.block_id.clone(),
                                row_index: Some(i),
                                message,
                            };
                            proof {
                                lemma_views_push(errors@, error);
                            }
                            errors.push(error);
                        }
                    },
                    _ => {},
                }
            }
            i = i + 1;
        }
        errors
    }

    /// The errors for the duration of a block.
    fn check_duration(&self, block: &Block) -> (r: Vec<BlockContinuityError>)
        ensures
            views(r@) == duration_errors(
                block.block_id@,
                block.spec_duration(),
                self.config.business_rules,
            ),
    {
        let mut errors: Vec<BlockContinuityError> = Vec::new();
        let rules = &self.config.business_rules;
        proof {
            assert(views(errors@) =~= Seq::empty());
        }
        match block.duration_seconds() {
            Some(duration) => {
                if duration < rules.min_block_duration_seconds {
                    let mut message = String::from_str("Block duration ");
                    message.append(u64_to_decimal(duration as u64).as_str());
                    message.append(" seconds is less than minimum ");
                    message.append(u64_to_decimal(rules.min_block_duration_seconds as u64).as_str());
                    message.append(" seconds");
                    let error = BlockContinuityError {
                        error_type: BlockContinuityErrorType::DurationTooShort,
                        block_id: block.block_id.clone(),
                        row_index: None,
                        message,
                    };
                    proof {
                        lemma_views_push(errors@, error);
                    }
                    errors.push(error);
                }
                let ghost first = views(errors@);
                if duration > rules.max_block_duration_seconds {
                    let mut message = String::from_str("Block duration ");
                    message.append(u64_to_decimal(duration as u64).as_str());
                    message.append(" seconds exceeds maximum ");
                    message.append(u64_to_decimal(rules.max_block_duration_seconds as u64).as_str());
                    message.append(" seconds");
                    let error = BlockContinuityError {
                        error_type: BlockContinuityErrorType::DurationTooLong,
                        block_id: block.block_id.clone(),
                        row_index: None,
                        message,
                    };
                    proof {
                        lemma_views_push(errors@, error);
                    }
                    errors.push(error);
                }
                proof {
                    assert(views(errors@) =~= duration_errors(
                        block.block_id@,
                        block.spec_duration(),
                        self.config.business_rules,
                    ));
                }
            },
            None => {},
        }
        errors
    }

    /// The warnings for the changes of place within a block.
    fn check_places(&self, block: &Block) -> (r: Vec<BlockContinuityWarning>)
        ensures
            views(r@) == place_warnings(block.block_id@, block.rows@, block.rows@.len() - 1),
    {
        let mut warnings: Vec<BlockContinuityWarning> = Vec::new();
        proof {
            assert(views(warnings@) =~= Seq::empty());
        }
        if block.rows.len() == 0 {
            return warnings;
        }
        let last = block.rows.len() - 1;
        let mut i: usize = 0;
        while i < last
            invariant
                last == block.rows.len() - 1,
                i <= last,
                views(warnings@) == place_warnings(block.block_id@, block.rows@, i as int),
            decreases last - i,
        {
            if place_changes(&block.rows, i) {
                let from = match &block.rows[i].end_place {
                    Some(p) => p.as_str(),
                    None => "?",
                };
                let to = match &block.rows[i + 1].start_place {
                    Some(p) => p.as_str(),
                    None => "?",
                };
                let mut message = String::from_str("Location discontinuity: row ");
                message.append(u64_to_decimal(i as u64).as_str());
                message.append(" ends at '");
                message.append(from);
                message.append("' but row ");
                message.append(u64_to_decimal(i as u64 + 1).as_str());
                message.append(" starts at '");
                message.append(to);
                message.append("'");
                let warning = BlockContinuityWarning {
                    code: String::from_str("W101"),
                    block_id: block.block_id.clone(),
                    row_index: Some(i),
                    message,
                };
                proof {
                    lemma_views_push(warnings@, warning);
                }
                warnings.push(warning);
            }
            i = i + 1;
        }
        warnings
    }

    /// The warnings for the long gaps within a block.
    fn check_gaps(&self, block: &Block) -> (r: Vec<BlockContinuityWarning>)
        ensures
            views(r@) == gap_warnings(
                block.block_id@,
                block.rows@,
                self.max_gap(),
                block.rows@.len() - 1,
            ),
    {
        let mut warnings: Vec<BlockContinuityWarning> = Vec::new();
        proof {
            assert(views(warnings@) =~= Seq::empty());
        }
        if block.rows.len() == 0 {
            return warnings;
        }
        let max_gap: u64 = self.config.business_rules.min_layover_seconds as u64 * 10;
        let last = block.rows.len() - 1;
        let mut i: usize = 0;
        while i < last
            invariant
                last == block.rows.len() - 1,
                i <= last,
                max_gap == self.max_gap(),
                views(warnings@) == gap_warnings(
                    block.block_id@,
                    block.rows@,
                    self.max_gap(),
                    i as int,
                ),
            decreases last - i,
        {
            match gap_between(&block.rows, i) {
                Some(gap) => {
                    if gap as u64 > max_gap {
                        let mut message = String::from_str("Large time gap of ");
                        message.append(u64_to_decimal(gap as u64).as_str());
                        message.append(" seconds between rows ");
                        message.append(u64_to_decimal(i as u64).as_str());
                        message.append(" and ");
                        message.append(u64_to_decimal(i as u64 + 1).as_str());
                        let warning = BlockContinuityWarning {
                            code: String::from_str("W102"),
                            block_id: block.block_id.clone(),
                            row_index: Some(i),
                            message,
                        };
                        proof {
                            lemma_views_push(warnings@, warning);
                        }
                        warnings.push(warning);
                    }
                },
                None => {},
            }
            i = i + 1;
        }
        warnings
    }

    /// The warnings for a missing pull-out and a missing pull-in.
    fn check_pulls(&self, block: &Block) -> (r: Vec<BlockContinuityWarning>)
        ensures
            views(r@) == pull_warnings(*block, self.config.generate_warnings),
    {
        let mut warnings: Vec<BlockContinuityWarning> = Vec::new();
        proof {
            assert(views(warnings@) =~= Seq::empty());
        }
        if block.pull_out().is_none() && self.config.generate_warnings {
            let warning = BlockContinuityWarning {
                code: String::from_str("W103"),
                block_id: block.block_id.clone(),
                row_index: None,
                message: String::from_str("Block has no explicit pull-out row"),
            };
            proof {
                lemma_views_push(warnings@, warning);
            }
            warnings.push(warning);
        }
        if block.pull_in().is_none() && self.config.generate_warnings {
            let warning = BlockContinuityWarning {
                code: String::from_str("W104"),
                block_id: block.block_id.clone(),
                row_index: None,
                message: String::from_str("Block has no explicit pull-in row"),
            };
            proof {
                lemma_views_push(warnings@, warning);
            }
            warnings.push(warning);
        }
        proof {
            assert(views(warnings@) =~= pull_warnings(*block, self.config.generate_warnings));
        }
        warnings
    }

    /// Checks one block.
    pub fn check_block(&self, block: &Block) -> (r: BlockContinuityResult)
        ensures
            r@ == self.block_findings(*block),
    {
        let mut errors = self.check_chronology(block);
        let mut more_errors = self.check_duration(block);
        let mut warnings = self.check_places(block);
        let mut gaps = self.check_gaps(block);
        let mut pulls = self.check_pulls(block);
        proof {
            lemma_views_concat(errors@, more_errors@);
            lemma_views_concat(warnings@, gaps@);
            lemma_views_concat(warnings@ + gaps@, pulls@);
        }
        errors.append(&mut more_errors);
        warnings.append(&mut gaps);
        warnings.append(&mut pulls);
        BlockContinuityResult { errors, warnings }
    }

    /// Checks the blocks of a schedule, in rising order of their
    /// identifiers. The blocks are derived from the rows as they are now.
    /// With an error budget, the blocks behind the one that used it up are
    /// not checked.
    pub fn check_schedule(&self, schedule: &mut Schedule) -> (r: BlockContinuityResult)
        ensures
            final(schedule).same_rows_as(old(schedule)),
            final(schedule).duties == old(schedule).duties,
            final(schedule).blocks is Some,
            are_blocks_of(final(schedule).blocks.unwrap().entries@, old(schedule).rows@),
            r@ == self.schedule_findings(final(schedule).blocks.unwrap().entries@),
    {
        schedule.derive_blocks();
        let map = match &schedule.blocks {
            Some(m) => m,
            None => {
                return BlockContinuityResult::default();
            },
        };
        self.check_blocks(&map.entries)
    }

    /// Checks `blocks` in their order.
    pub fn check_blocks(&self, blocks: &Vec<Block>) -> (r: BlockContinuityResult)
        ensures
            r@ == self.schedule_findings(blocks@),
    {
        let mut combined = BlockContinuityResult::default();
        let mut i: usize = 0;
        let mut stopped = false;
        while i < blocks.len() && !stopped
            invariant
                i <= blocks.len(),
                (combined@, stopped) == self.blocks_findings(blocks@, i as int),
            decreases blocks.len() - i,
        {
            let ghost before = combined;
            let mut part = self.check_block(&blocks[i]);
            let ghost found = part;
            combined.errors.append(&mut part.errors);
            combined.warnings.append(&mut part.warnings);
            proof {
                lemma_views_concat(before.errors@, found.errors@);
                lemma_views_concat(before.warnings@, found.warnings@);
            }
            stopped = self.config.is_budget_reached(combined.errors.len());
            i = i + 1;
        }
        proof {
            self.lemma_stopped_stays(blocks@, i as int, blocks@.len() as int);
        }
        combined
    }

    /// Once the budget is used up, further blocks change nothing.
    proof fn lemma_stopped_stays(&self, blocks: Seq<Block>, i: int, n: int)
        requires
            0 <= i <= n,
            i == n || self.blocks_findings(blocks, i).1,
        ensures
            self.blocks_findings(blocks, n).0 == self.blocks_findings(blocks, i).0,
            i < n ==> self.blocks_findings(blocks, n).1,
        decreases n - i,
    {
        if i < n {
            if i < n - 1 {
                self.lemma_stopped_stays(blocks, i, n - 1);
            }
        }
    }
}

} // verus!
