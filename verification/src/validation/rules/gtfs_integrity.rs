//! References into the timetable: whether the trips, stops and shapes that
//! a schedule names are known there.

use crate::models::schedule::Schedule;
use crate::models::schedule_row::ScheduleRow;
use crate::text::{
    has_id, insert_sorted_unique, lemma_views_push, str_eq, strictly_sorted, views,
};
use crate::validation::config::{GtfsComplianceLevel, ValidationConfig};
use vstd::prelude::*;
use vstd::string::*;

verus! {

/// The identifiers that the reference timetable holds.
#[derive(Debug)]
pub struct ReferenceData {
    pub trip_ids: Vec<String>,
    pub stop_ids: Vec<String>,
    pub shape_ids: Vec<String>,
}

/// What kind of reference is missing.
#[derive(Debug, Clone, Copy, PartialEq, Eq, Structural)]
pub enum GtfsIntegrityErrorType {
    /// The trip is not in the timetable.
    MissingTripId,
    /// The stop is not in the timetable.
    MissingStopId,
    /// The shape is not in the timetable.
    MissingShapeId,
    /// The times differ from those of the timetable.
    TimeInconsistency,
}

/// A reference that the timetable does not hold, as an error.
#[derive(Debug)]
pub struct GtfsIntegrityError {
    pub error_type: GtfsIntegrityErrorType,
    pub row_index: usize,
    pub field: String,
    pub value: String,
    pub message: String,
}

/// A reference that the timetable does not hold, as a warning.
#[derive(Debug)]
pub struct GtfsIntegrityWarning {
    pub code: String,
    pub row_index: usize,
    pub message: String,
}

/// What the checker found.
#[derive(Debug)]
pub struct GtfsIntegrityResult {
    pub errors: Vec<GtfsIntegrityError>,
    pub warnings: Vec<GtfsIntegrityWarning>,
}

/// An error, with its texts as sequences of characters.
pub struct IntegrityErrorView {
    pub error_type: GtfsIntegrityErrorType,
    pub row_index: usize,
    pub field: Seq<char>,
    pub value: Seq<char>,
    pub message: Seq<char>,
}

/// A warning, with its texts as sequences of characters.
pub struct IntegrityWarningView {
    pub code: Seq<char>,
    pub row_index: usize,
    pub message: Seq<char>,
}

/// Errors and warnings, in the order they were found.
pub struct IntegrityFindings {
    pub errors: Seq<IntegrityErrorView>,
    pub warnings: Seq<IntegrityWarningView>,
}

impl View for GtfsIntegrityError {
    type V = IntegrityErrorView;

    open spec fn view(&self) -> IntegrityErrorView {
        IntegrityErrorView {
            error_type: self.error_type,
            row_index: self.row_index,
            field: self.field@,
            value: self.value@,
            message: self.message@,
        }
    }
}

impl View for GtfsIntegrityWarning {
    type V = IntegrityWarningView;

    open spec fn view(&self) -> IntegrityWarningView {
        IntegrityWarningView { code: self.code@, row_index: self.row_index, message: self.message@ }
    }
}

impl View for GtfsIntegrityResult {
    type V = IntegrityFindings;

    open spec fn view(&self) -> IntegrityFindings {
        IntegrityFindings { errors: views(self.errors@), warnings: views(self.warnings@) }
    }
}

impl IntegrityFindings {
    /// No finding.
    pub open spec fn none() -> IntegrityFindings {
        IntegrityFindings { errors: Seq::empty(), warnings: Seq::empty() }
    }

    /// These findings, and then those of `other`.
    pub open spec fn plus(self, other: IntegrityFindings) -> IntegrityFindings {
        IntegrityFindings {
            errors: self.errors + other.errors,
            warnings: self.warnings + other.warnings,
        }
    }
}

/// The field of a row that holds a reference.
#[derive(Debug, Clone, Copy, PartialEq, Eq, Structural)]
pub enum ReferenceField {
    Trip,
    StartPlace,
    EndPlace,
    Shape,
}

/// The name of the field.
pub open spec fn field_name(field: ReferenceField) -> Seq<char> {
    match field {
        ReferenceField::Trip => "trip_id"@,
        ReferenceField::StartPlace => "start_place"@,
        ReferenceField::EndPlace => "end_place"@,
        ReferenceField::Shape => "route_shape_id"@,
    }
}

/// The kind of error that a missing reference in the field is.
pub open spec fn missing_type(field: ReferenceField) -> GtfsIntegrityErrorType {
    match field {
        ReferenceField::Trip => GtfsIntegrityErrorType::MissingTripId,
        ReferenceField::StartPlace => GtfsIntegrityErrorType::MissingStopId,
        ReferenceField::EndPlace => GtfsIntegrityErrorType::MissingStopId,
        ReferenceField::Shape => GtfsIntegrityErrorType::MissingShapeId,
    }
}

/// The text of the error for the missing reference `value`.
pub open spec fn missing_error_message(field: ReferenceField, value: Seq<char>) -> Seq<char> {
    match field {
        ReferenceField::Trip => "Trip ID '"@ + value + "' not found in GTFS trips.txt"@,
        ReferenceField::StartPlace => "Stop ID '"@ + value + "' not found in GTFS stops.txt"@,
        ReferenceField::EndPlace => "Stop ID '"@ + value + "' not found in GTFS stops.txt"@,
        ReferenceField::Shape => "Shape ID '"@ + value + "' not found in GTFS shapes.txt"@,
    }
}

/// The code of the warning for a missing reference in the field.
pub open spec fn missing_warning_code(field: ReferenceField) -> Seq<char> {
    match field {
        ReferenceField::Trip => "W001"@,
        ReferenceField::StartPlace => "W002"@,
        ReferenceField::EndPlace => "W002"@,
        ReferenceField::Shape => "W003"@,
    }
}

/// The text of the warning for the missing reference `value`.
pub open spec fn missing_warning_message(field: ReferenceField, value: Seq<char>) -> Seq<char> {
    match field {
        ReferenceField::Trip => "Trip ID '"@ + value + "' not found in GTFS"@,
        ReferenceField::StartPlace => "Stop ID '"@ + value + "' (start_place) not found in GTFS"@,
        ReferenceField::EndPlace => "Stop ID '"@ + value + "' (end_place) not found in GTFS"@,
        ReferenceField::Shape => "Shape ID '"@ + value + "' not found in GTFS"@,
    }
}

/// What is reported for the missing reference `value` in row `row_index`:
/// an error under `Strict`, a warning under `Standard`, nothing under `Lenient`.
pub open spec fn missing_reference(
    level: GtfsComplianceLevel,
    field: ReferenceField,
    value: Seq<char>,
    row_index: usize,
) -> IntegrityFindings {
    match level {
        GtfsComplianceLevel::Strict => IntegrityFindings {
            errors: seq![
                IntegrityErrorView {
                    error_type: missing_type(field),
                    row_index,
                    field: field_name(field),
                    value,
                    message: missing_error_message(field, value),
                },
            ],
            warnings: Seq::empty(),
        },
        GtfsComplianceLevel::Standard => IntegrityFindings {
            errors: Seq::empty(),
            warnings: seq![
                IntegrityWarningView {
                    code: missing_warning_code(field),
                    row_index,
                    message: missing_warning_message(field, value),
                },
            ],
        },
        GtfsComplianceLevel::Lenient => IntegrityFindings::none(),
    }
}

/// The references that a schedule makes and the timetable does not hold,
/// each once, in rising order.
#[derive(Debug)]
pub struct MissingReferences {
    pub trip_ids: Vec<String>,
    pub stop_ids: Vec<String>,
    pub shape_ids: Vec<String>,
}

impl Default for GtfsIntegrityResult {
    fn default() -> (r: Self)
        ensures
            r@ == IntegrityFindings::none(),
    {
        let r = GtfsIntegrityResult { errors: Vec::new(), warnings: Vec::new() };
        proof {
            assert(views(r.errors@) =~= Seq::empty());
            assert(views(r.warnings@) =~= Seq::empty());
        }
        r
    }
}

impl GtfsIntegrityResult {
    /// Whether there is no error.
    pub fn is_valid(&self) -> (r: bool)
        ensures
            r == (self.errors@.len() == 0),
    {
        self.errors.len() == 0
    }
}

impl Default for MissingReferences {
    fn default() -> (r: Self)
        ensures
            r.trip_ids@.len() == 0,
            r.stop_ids@.len() == 0,
            r.shape_ids@.len() == 0,
    {
        MissingReferences { trip_ids: Vec::new(), stop_ids: Vec::new(), shape_ids: Vec::new() }
    }
}

impl MissingReferences {
    /// Whether nothing is missing.
    pub fn is_empty(&self) -> (r: bool)
        ensures
            r == (self.trip_ids@.len() == 0 && self.stop_ids@.len() == 0 && self.shape_ids@.len()
                == 0),
    {
        self.trip_ids.len() == 0 && self.stop_ids.len() == 0 && self.shape_ids.len() == 0
    }

    /// How many references are missing; `usize::MAX` where there are more.
    pub fn total_count(&self) -> (r: usize)
        ensures
            r == crate::text::capped_count(
                self.trip_ids@.len() + self.stop_ids@.len() + self.shape_ids@.len(),
            ),
    {
        crate::text::add_counts(
            crate::text::add_counts(self.trip_ids.len(), self.stop_ids.len()),
            self.shape_ids.len(),
        )
    }
}

/// Checks the references of a schedule against the timetable.
#[derive(Debug)]
pub struct GtfsIntegrityChecker {
    /// The configuration.
    pub config: ValidationConfig,
    /// The trips of the timetable.
    pub trip_ids: Vec<String>,
    /// The stops of the timetable.
    pub stop_ids: Vec<String>,
    /// The shapes of the timetable.
    pub shape_ids: Vec<String>,
}

/// Copies a list of identifiers.
pub fn clone_ids(ids: &Vec<String>) -> (r: Vec<String>)
    ensures
        r@ == ids@,
{
    let mut out: Vec<String> = Vec::new();
    let mut i: usize = 0;
    while i < ids.len()
        invariant
            i <= ids.len(),
            out@ == ids@.take(i as int),
        decreases ids.len() - i,
    {
        out.push(ids[i].clone());
        proof {
            assert(out@ =~= ids@.take(i + 1));
        }
        i = i + 1;
    }
    proof {
        assert(ids@.take(ids.len() as int) =~= ids@);
    }
    out
}

/// Whether one of `ids` is `id`.
pub fn contains_id(ids: &Vec<String>, id: &str) -> (r: bool)
    ensures
        r == has_id(ids@, id@),
{
    let mut i: usize = 0;
    while i < ids.len()
        invariant
            i <= ids.len(),
            forall|k: int| 0 <= k < i ==> (#[trigger] ids@[k])@ != id@,
        decreases ids.len() - i,
    {
        if str_eq(ids[i].as_str(), id) {
            return true;
        }
        i = i + 1;
    }
    false
}

/// What the references are checked against: the configuration and the
/// identifiers that the timetable holds.
pub struct IntegrityRules {
    pub config: ValidationConfig,
    pub trips: Seq<String>,
    pub stops: Seq<String>,
    pub shapes: Seq<String>,
}

impl ReferenceData {
    /// The rules for checking against this timetable under `config`.
    pub open spec fn rules(&self, config: ValidationConfig) -> IntegrityRules {
        IntegrityRules {
            config,
            trips: self.trip_ids@,
            stops: self.stop_ids@,
            shapes: self.shape_ids@,
        }
    }
}

impl IntegrityRules {
    /// The reference in the field `field` of `row` that is checked and not
    /// known: a trip or a shape of any row, a place of a revenue row.
    pub open spec fn unknown_reference(&self, row: ScheduleRow, field: ReferenceField) -> Option<
        Seq<char>,
    > {
        match field {
            ReferenceField::Trip => if row.trip_id is Some && !has_id(
                self.trips,
                row.trip_id.unwrap()@,
            ) {
                Some(row.trip_id.unwrap()@)
            } else {
                None
            },
            ReferenceField::StartPlace => if row.start_place is Some && !has_id(
                self.stops,
                row.start_place.unwrap()@,
            ) && row.spec_is_revenue() {
                Some(row.start_place.unwrap()@)
            } else {
                None
            },
            ReferenceField::EndPlace => if row.end_place is Some && !has_id(
                self.stops,
                row.end_place.unwrap()@,
            ) && row.spec_is_revenue() {
                Some(row.end_place.unwrap()@)
            } else {
                None
            },
            ReferenceField::Shape => if row.route_shape_id is Some && !has_id(
                self.shapes,
                row.route_shape_id.unwrap()@,
            ) {
                Some(row.route_shape_id.unwrap()@)
            } else {
                None
            },
        }
    }

    /// What is reported for the field `field` of `row`.
    pub open spec fn field_findings(
        &self,
        row: ScheduleRow,
        row_index: usize,
        field: ReferenceField,
    ) -> IntegrityFindings {
        match self.unknown_reference(row, field) {
            Some(value) => missing_reference(self.config.gtfs_compliance, field, value, row_index),
            None => IntegrityFindings::none(),
        }
    }

    /// What is reported for `row`: for its trip, its start place, its end
    /// place and its shape, in that order.
    pub open spec fn row_findings(&self, row: ScheduleRow, row_index: usize) -> IntegrityFindings {
        self.field_findings(row, row_index, ReferenceField::Trip).plus(
            self.field_findings(row, row_index, ReferenceField::StartPlace),
        ).plus(self.field_findings(row, row_index, ReferenceField::EndPlace)).plus(
            self.field_findings(row, row_index, ReferenceField::Shape),
        )
    }

    /// What is reported for the first `n` rows, and whether the error
    /// budget was used up on the way: after the row with which the errors
    /// reach the budget, no further row is looked at.
    pub open spec fn rows_findings(&self, rows: Seq<ScheduleRow>, n: int) -> (IntegrityFindings, bool)
        decreases n,
    {
        if n <= 0 {
            (IntegrityFindings::none(), false)
        } else {
            let (before, stopped) = self.rows_findings(rows, n - 1);
            if stopped {
                (before, true)
            } else {
                let now = before.plus(self.row_findings(rows[n - 1], (n - 1) as usize));
                (now, self.config.budget_reached(now.errors.len() as int))
            }
        }
    }

    /// What is reported for a whole schedule.
    pub open spec fn schedule_findings(&self, rows: Seq<ScheduleRow>) -> IntegrityFindings {
        self.rows_findings(rows, rows.len() as int).0
    }

    /// Whether `ids` holds the unknown references in the fields `a` and `b`
    /// of the rows, each once, in rising order.
    pub open spec fn are_unknown(
        &self,
        ids: Seq<String>,
        rows: Seq<ScheduleRow>,
        a: ReferenceField,
        b: ReferenceField,
    ) -> bool {
        &&& strictly_sorted(ids)
        &&& forall|s: Seq<char>|
            has_id(ids, s) <==> exists|i: int|
                0 <= i < rows.len() && (self.unknown_reference(#[trigger] rows[i], a) == Some(s)
                    || self.unknown_reference(rows[i], b) == Some(s))
    }
}

impl GtfsIntegrityChecker {
    /// What the checker checks against.
    pub open spec fn rules(&self) -> IntegrityRules {
        IntegrityRules {
            config: self.config,
            trips: self.trip_ids@,
            stops: self.stop_ids@,
            shapes: self.shape_ids@,
        }
    }

    /// A checker for a timetable that holds the identifiers of `reference`.
    pub fn new(reference: &ReferenceData, config: &ValidationConfig) -> (r: Self)
        ensures
            r.config == *config,
            r.trip_ids@ == reference.trip_ids@,
            r.stop_ids@ == reference.stop_ids@,
            r.shape_ids@ == reference.shape_ids@,
            r.rules() == reference.rules(*config),
    {
        GtfsIntegrityChecker {
            config: *config,
            trip_ids: clone_ids(&reference.trip_ids),
            stop_ids: clone_ids(&reference.stop_ids),
            shape_ids: clone_ids(&reference.shape_ids),
        }
    }

    /// The reference in the field `field` of `row` that is checked and not known.
    pub fn find_unknown<'a>(&self, row: &'a ScheduleRow, field: ReferenceField) -> (r: Option<
        &'a String,
    >)
        ensures
            r is Some <==> self.rules().unknown_reference(*row, field) is Some,
            r is Some ==> r.unwrap()@ == self.rules().unknown_reference(*row, field).unwrap(),
    {
        let (value, known, applies) = match field {
            ReferenceField::Trip => (&row.trip_id, &self.trip_ids, true),
            ReferenceField::StartPlace => (&row.start_place, &self.stop_ids, row.is_revenue()),
            ReferenceField::EndPlace => (&row.end_place, &self.stop_ids, row.is_revenue()),
            ReferenceField::Shape => (&row.route_shape_id, &self.shape_ids, true),
        };
        match value {
            Some(v) => if applies && !contains_id(known, v.as_str()) {
                Some(v)
            } else {
                None
            },
            None => None,
        }
    }

    /// Reports the missing reference `value`.
    fn report_missing(
        &self,
        result: &mut GtfsIntegrityResult,
        row_index: usize,
        field: ReferenceField,
        value: &str,
    )
        ensures
            final(result)@ == old(result)@.plus(
                missing_reference(self.config.gtfs_compliance, field, value@, row_index),
            ),
    {
        let ghost before = *result;
        match self.config.gtfs_compliance {
            GtfsComplianceLevel::Strict => {
                let name = match field {
                    ReferenceField::Trip => "trip_id",
                    ReferenceField::StartPlace => "start_place",
                    ReferenceField::EndPlace => "end_place",
                    ReferenceField::Shape => "route_shape_id",
                };
                let (head, tail) = match field {
                    ReferenceField::Trip => ("Trip ID '", "' not found in GTFS trips.txt"),
                    ReferenceField::StartPlace => ("Stop ID '", "' not found in GTFS stops.txt"),
                    ReferenceField::EndPlace => ("Stop ID '", "' not found in GTFS stops.txt"),
                    ReferenceField::Shape => ("Shape ID '", "' not found in GTFS shapes.txt"),
                };
                let error_type = match field {
                    ReferenceField::Trip => GtfsIntegrityErrorType::MissingTripId,
                    ReferenceField::StartPlace => GtfsIntegrityErrorType::MissingStopId,
                    ReferenceField::EndPlace => GtfsIntegrityErrorType::MissingStopId,
                    ReferenceField::Shape => GtfsIntegrityErrorType::MissingShapeId,
                };
                let mut message = String::from_str(head);
                message.append(value);
                message.append(tail);
                let error = GtfsIntegrityError {
                    error_type,
                    row_index,
                    field: String::from_str(name),
                    value: String::from_str(value),
                    message,
                };
                result.errors.push(error);
                proof {
                    lemma_views_push(before.errors@, error);
                    assert(result@.errors =~= before@.errors + seq![error@]);
                    assert(result@.warnings =~= before@.warnings + Seq::empty());
                }
            },
            GtfsComplianceLevel::Standard => {
                let code = match field {
                    ReferenceField::Trip => "W001",
                    ReferenceField::StartPlace => "W002",
                    ReferenceField::EndPlace => "W002",
                    ReferenceField::Shape => "W003",
                };
                let (head, tail) = match field {
                    ReferenceField::Trip => ("Trip ID '", "' not found in GTFS"),
                    ReferenceField::StartPlace => ("Stop ID '", "' (start_place) not found in GTFS"),
                    ReferenceField::EndPlace => ("Stop ID '", "' (end_place) not found in GTFS"),
                    ReferenceField::Shape => ("Shape ID '", "' not found in GTFS"),
                };
                let mut message = String::from_str(head);
                message.append(value);
                message.append(tail);
                let warning = GtfsIntegrityWarning {
                    code: String::from_str(code),
                    row_index,
                    message,
                };
                result.warnings.push(warning);
                proof {
                    lemma_views_push(before.warnings@, warning);
                    assert(result@.warnings =~= before@.warnings + seq![warning@]);
                    assert(result@.errors =~= before@.errors + Seq::empty());
                }
            },
            GtfsComplianceLevel::Lenient => {
                proof {
                    assert(result@.errors =~= before@.errors + Seq::empty());
                    assert(result@.warnings =~= before@.warnings + Seq::empty());
                }
            },
        }
    }

    /// Checks the field `field` of `row`.
    fn check_field(
        &self,
        result: &mut GtfsIntegrityResult,
        row: &ScheduleRow,
        row_index: usize,
        field: ReferenceField,
    )
        ensures
            final(result)@ == old(result)@.plus(self.rules().field_findings(*row, row_index, field)),
    {
        match self.find_unknown(row, field) {
            Some(value) => {
                self.report_missing(result, row_index, field, value.as_str());
            },
            None => {
                proof {
                    assert(result@.errors =~= result@.errors + Seq::empty());
                    assert(result@.warnings =~= result@.warnings + Seq::empty());
                }
            },
        }
    }

    /// Checks the references of one row: its trip, its start place, its end
    /// place and its shape. The places are checked on revenue rows only.
    pub fn check_row(&self, row: &ScheduleRow, row_index: usize) -> (r: GtfsIntegrityResult)
        ensures
            r@ == self.rules().row_findings(*row, row_index),
    {
        let mut result = GtfsIntegrityResult::default();
        self.check_field(&mut result, row, row_index, ReferenceField::Trip);
        proof {
            let f = self.rules().field_findings(*row, row_index, ReferenceField::Trip);
            assert(Seq::<IntegrityErrorView>::empty() + f.errors =~= f.errors);
            assert(Seq::<IntegrityWarningView>::empty() + f.warnings =~= f.warnings);
        }
        self.check_field(&mut result, row, row_index, ReferenceField::StartPlace);
        self.check_field(&mut result, row, row_index, ReferenceField::EndPlace);
        self.check_field(&mut result, row, row_index, ReferenceField::Shape);
        result
    }

    /// Checks the references of all rows, in their order. With an error
    /// budget, the rows behind the one that used it up are not checked.
    pub fn check_schedule(&self, schedule: &Schedule) -> (r: GtfsIntegrityResult)
        ensures
            r@ == self.rules().schedule_findings(schedule.rows@),
    {
        let mut combined = GtfsIntegrityResult::default();
        let mut i: usize = 0;
        let mut stopped = false;
        while i < schedule.rows.len() && !stopped
            invariant
                i <= schedule.rows.len(),
                (combined@, stopped) == self.rules().rows_findings(schedule.rows@, i as int),
            decreases schedule.rows.len() - i,
        {
            let ghost before = combined;
            let mut part = self.check_row(&schedule.rows[i], i);
            let ghost found = part;
            combined.errors.append(&mut part.errors);
            combined.warnings.append(&mut part.warnings);
            proof {
                crate::text::lemma_views_concat(before.errors@, found.errors@);
                crate::text::lemma_views_concat(before.warnings@, found.warnings@);
            }
            stopped = self.config.is_budget_reached(combined.errors.len());
            i = i + 1;
        }
        proof {
            self.lemma_stopped_stays(schedule.rows@, i as int, schedule.rows@.len() as int);
        }
        combined
    }

    /// Once the budget is used up, further rows change nothing.
    proof fn lemma_stopped_stays(&self, rows: Seq<ScheduleRow>, i: int, n: int)
        requires
            0 <= i <= n,
            i == n || self.rules().rows_findings(rows, i).1,
        ensures
            self.rules().rows_findings(rows, n).0 == self.rules().rows_findings(rows, i).0,
        decreases n - i,
    {
        if i < n {
            self.lemma_stopped_stays(rows, i, n - 1);
            if i < n - 1 {
                self.lemma_stopped_carries(rows, i, n - 1);
            }
        }
    }

    /// Once the budget is used up, it stays used up.
    proof fn lemma_stopped_carries(&self, rows: Seq<ScheduleRow>, i: int, n: int)
        requires
            0 <= i <= n,
            self.rules().rows_findings(rows, i).1,
        ensures
            self.rules().rows_findings(rows, n).1,
        decreases n - i,
    {
        if i < n {
            self.lemma_stopped_carries(rows, i, n - 1);
        }
    }

    /// The references that the schedule makes and the timetable does not
    /// hold, whatever the compliance level.
    pub fn get_missing_references(&self, schedule: &Schedule) -> (r: MissingReferences)
        ensures
            self.rules().are_unknown(
                r.trip_ids@,
                schedule.rows@,
                ReferenceField::Trip,
                ReferenceField::Trip,
            ),
            self.rules().are_unknown(
                r.stop_ids@,
                schedule.rows@,
                ReferenceField::StartPlace,
                ReferenceField::EndPlace,
            ),
            self.rules().are_unknown(
                r.shape_ids@,
                schedule.rows@,
                ReferenceField::Shape,
                ReferenceField::Shape,
            ),
    {
        MissingReferences {
            trip_ids: self.collect_unknown(
                &schedule.rows,
                ReferenceField::Trip,
                ReferenceField::Trip,
            ),
            stop_ids: self.collect_unknown(
                &schedule.rows,
                ReferenceField::StartPlace,
                ReferenceField::EndPlace,
            ),
            shape_ids: self.collect_unknown(
                &schedule.rows,
                ReferenceField::Shape,
                ReferenceField::Shape,
            ),
        }
    }

    /// The unknown references in the fields `a` and `b` of the rows.
    fn collect_unknown(&self, rows: &Vec<ScheduleRow>, a: ReferenceField, b: ReferenceField) -> (r:
        Vec<String>)
        ensures
            self.rules().are_unknown(r@, rows@, a, b),
    {
        let mut ids: Vec<String> = Vec::new();
        let mut i: usize = 0;
        while i < rows.len()
            invariant
                i <= rows.len(),
                self.rules().are_unknown(ids@, rows@.take(i as int), a, b),
            decreases rows.len() - i,
        {
            let ghost prefix = rows@.take(i as int);
            let ghost next = rows@.take(i + 1);
            let ghost start = ids@;
            match self.find_unknown(&rows[i], a) {
                Some(v) => {
                    insert_sorted_unique(&mut ids, v.clone());
                },
                None => {},
            }
            let ghost middle = ids@;
            match self.find_unknown(&rows[i], b) {
                Some(v) => {
                    insert_sorted_unique(&mut ids, v.clone());
                },
                None => {},
            }
            proof {
                let row = rows@[i as int];
                assert(next[i as int] == row);
                assert forall|s: Seq<char>|
                    has_id(ids@, s) <==> exists|k: int|
                        0 <= k < next.len() && (self.rules().unknown_reference(#[trigger] next[k], a)
                            == Some(s) || self.rules().unknown_reference(next[k], b) == Some(s)) by {
                    let in_prefix = exists|k: int|
                        0 <= k < prefix.len() && (self.rules().unknown_reference(#[trigger] prefix[k], a)
                            == Some(s) || self.rules().unknown_reference(prefix[k], b) == Some(s));
                    let in_next = exists|k: int|
                        0 <= k < next.len() && (self.rules().unknown_reference(#[trigger] next[k], a)
                            == Some(s) || self.rules().unknown_reference(next[k], b) == Some(s));
                    assert(has_id(start, s) <==> in_prefix);
                    if in_prefix {
                        let k = choose|k: int|
                            0 <= k < prefix.len() && (self.rules().unknown_reference(
                                #[trigger] prefix[k],
                                a,
                            ) == Some(s) || self.rules().unknown_reference(prefix[k], b) == Some(s));
                        assert(next[k] == prefix[k]);
                    }
                    if in_next {
                        let k = choose|k: int|
                            0 <= k < next.len() && (self.rules().unknown_reference(#[trigger] next[k], a)
                                == Some(s) || self.rules().unknown_reference(next[k], b) == Some(s));
                        if k < i {
                            assert(prefix[k] == next[k]);
                        }
                    }
                }
            }
            i = i + 1;
        }
        proof {
            assert(rows@.take(rows.len() as int) =~= rows@);
        }
        ids
    }
}

} // verus!
