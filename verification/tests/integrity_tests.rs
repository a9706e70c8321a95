use schedule_parser::validation::rules::gtfs_integrity::{
    GtfsIntegrityChecker, GtfsIntegrityErrorType, MissingReferences, ReferenceData,
};
use schedule_parser::{GtfsComplianceLevel, RowType, Schedule, ScheduleRow, ValidationConfig};

fn make_gtfs_with_trip(trip_id: &str, stop_id: &str) -> ReferenceData {
    ReferenceData {
        trip_ids: vec![trip_id.to_string()],
        stop_ids: vec![stop_id.to_string()],
        shape_ids: vec![],
    }
}

#[test]
fn test_valid_trip_reference() {
    let gtfs = make_gtfs_with_trip("TRIP1", "STOP1");
    let config = ValidationConfig::strict();
    let checker = GtfsIntegrityChecker::new(&gtfs, &config);

    let row = ScheduleRow {
        trip_id: Some("TRIP1".to_string()),
        start_place: Some("STOP1".to_string()),
        row_type: RowType::Revenue,
        ..Default::default()
    };

    let result = checker.check_row(&row, 0);
    assert!(result.is_valid());
}

#[test]
fn gtfs_integrity_test_missing_trip_strict() {
    let gtfs = make_gtfs_with_trip("TRIP1", "STOP1");
    let config = ValidationConfig::strict();
    let checker = GtfsIntegrityChecker::new(&gtfs, &config);

    let row = ScheduleRow {
        trip_id: Some("MISSING_TRIP".to_string()),
        row_type: RowType::Revenue,
        ..Default::default()
    };

    let result = checker.check_row(&row, 0);
    assert!(!result.is_valid());
    assert_eq!(result.errors[0].error_type, GtfsIntegrityErrorType::MissingTripId);
}

#[test]
fn test_missing_trip_standard() {
    let gtfs = make_gtfs_with_trip("TRIP1", "STOP1");
    let config = ValidationConfig::new(); // Standard level
    let checker = GtfsIntegrityChecker::new(&gtfs, &config);

    let row = ScheduleRow {
        trip_id: Some("MISSING_TRIP".to_string()),
        row_type: RowType::Revenue,
        ..Default::default()
    };

    let result = checker.check_row(&row, 0);
    assert!(result.is_valid()); // No error, just warning
    assert_eq!(result.warnings.len(), 1);
}

#[test]
fn test_missing_trip_lenient() {
    let gtfs = make_gtfs_with_trip("TRIP1", "STOP1");
    let config = ValidationConfig::lenient();
    let checker = GtfsIntegrityChecker::new(&gtfs, &config);

    let row = ScheduleRow {
        trip_id: Some("MISSING_TRIP".to_string()),
        row_type: RowType::Revenue,
        ..Default::default()
    };

    let result = checker.check_row(&row, 0);
    assert!(result.is_valid());
    assert!(result.warnings.is_empty()); // No warnings either
}

#[test]
fn a_missing_trip_is_one_error_one_warning_or_nothing() {
    let gtfs = make_gtfs_with_trip("TRIP1", "STOP1");
    let row = ScheduleRow {
        trip_id: Some("MISSING_TRIP".to_string()),
        row_type: RowType::Revenue,
        ..Default::default()
    };
    let strict = GtfsIntegrityChecker::new(&gtfs, &ValidationConfig::strict()).check_row(&row, 4);
    assert_eq!(strict.errors.len(), 1);
    assert!(strict.warnings.is_empty());
    let error = &strict.errors[0];
    assert_eq!(error.error_type, GtfsIntegrityErrorType::MissingTripId);
    assert_eq!(error.row_index, 4);
    assert_eq!(error.field, "trip_id");
    assert_eq!(error.value, "MISSING_TRIP");
    assert_eq!(error.message, "Trip ID 'MISSING_TRIP' not found in GTFS trips.txt");
    let standard = GtfsIntegrityChecker::new(&gtfs, &ValidationConfig::new()).check_row(&row, 4);
    assert!(standard.errors.is_empty());
    assert_eq!(standard.warnings.len(), 1);
    assert_eq!(standard.warnings[0].code, "W001");
    assert_eq!(standard.warnings[0].row_index, 4);
    assert_eq!(standard.warnings[0].message, "Trip ID 'MISSING_TRIP' not found in GTFS");
    let lenient = GtfsIntegrityChecker::new(&gtfs, &ValidationConfig::lenient()).check_row(&row, 4);
    assert!(lenient.errors.is_empty());
    assert!(lenient.warnings.is_empty());
}

fn row_with_everything_unknown() -> ScheduleRow {
    ScheduleRow {
        trip_id: Some("T?".to_string()),
        start_place: Some("S1?".to_string()),
        end_place: Some("S2?".to_string()),
        route_shape_id: Some("SH?".to_string()),
        row_type: RowType::Revenue,
        ..Default::default()
    }
}

#[test]
fn every_kind_of_missing_reference_is_reported_in_order() {
    let gtfs = make_gtfs_with_trip("TRIP1", "STOP1");
    let row = row_with_everything_unknown();
    let strict = GtfsIntegrityChecker::new(&gtfs, &ValidationConfig::strict()).check_row(&row, 0);
    let kinds: Vec<GtfsIntegrityErrorType> = strict.errors.iter().map(|e| e.error_type).collect();
    assert_eq!(
        kinds,
        vec![
            GtfsIntegrityErrorType::MissingTripId,
            GtfsIntegrityErrorType::MissingStopId,
            GtfsIntegrityErrorType::MissingStopId,
            GtfsIntegrityErrorType::MissingShapeId
        ]
    );
    let fields: Vec<&str> = strict.errors.iter().map(|e| e.field.as_str()).collect();
    assert_eq!(fields, vec!["trip_id", "start_place", "end_place", "route_shape_id"]);
    assert_eq!(strict.errors[1].message, "Stop ID 'S1?' not found in GTFS stops.txt");
    assert_eq!(strict.errors[3].message, "Shape ID 'SH?' not found in GTFS shapes.txt");
    let standard = GtfsIntegrityChecker::new(&gtfs, &ValidationConfig::new()).check_row(&row, 0);
    let codes: Vec<&str> = standard.warnings.iter().map(|w| w.code.as_str()).collect();
    assert_eq!(codes, vec!["W001", "W002", "W002", "W003"]);
    assert_eq!(standard.warnings[1].message, "Stop ID 'S1?' (start_place) not found in GTFS");
    assert_eq!(standard.warnings[2].message, "Stop ID 'S2?' (end_place) not found in GTFS");
    assert_eq!(standard.warnings[3].message, "Shape ID 'SH?' not found in GTFS");
    let lenient = GtfsIntegrityChecker::new(&gtfs, &ValidationConfig::lenient()).check_row(&row, 0);
    assert!(lenient.errors.is_empty() && lenient.warnings.is_empty());
}

#[test]
fn places_are_checked_on_revenue_rows_only() {
    let gtfs = make_gtfs_with_trip("TRIP1", "STOP1");
    let checker = GtfsIntegrityChecker::new(&gtfs, &ValidationConfig::strict());
    let mut row = row_with_everything_unknown();
    row.row_type = RowType::PullOut;
    let result = checker.check_row(&row, 0);
    let kinds: Vec<GtfsIntegrityErrorType> = result.errors.iter().map(|e| e.error_type).collect();
    assert_eq!(
        kinds,
        vec![GtfsIntegrityErrorType::MissingTripId, GtfsIntegrityErrorType::MissingShapeId]
    );
    let blank = ScheduleRow::new();
    assert!(checker.check_row(&blank, 0).is_valid());
}

#[test]
fn rows_of_a_schedule_are_checked_within_the_budget() {
    let gtfs = make_gtfs_with_trip("TRIP1", "STOP1");
    let schedule = Schedule::from_rows(vec![
        row_with_everything_unknown(),
        row_with_everything_unknown(),
        row_with_everything_unknown(),
    ]);
    let all = GtfsIntegrityChecker::new(&gtfs, &ValidationConfig::strict()).check_schedule(&schedule);
    assert_eq!(all.errors.len(), 12);
    let rows: Vec<usize> = all.errors.iter().map(|e| e.row_index).collect();
    assert_eq!(rows, vec![0, 0, 0, 0, 1, 1, 1, 1, 2, 2, 2, 2]);
    let config = ValidationConfig::strict().with_max_errors(5);
    let some = GtfsIntegrityChecker::new(&gtfs, &config).check_schedule(&schedule);
    assert_eq!(some.errors.len(), 8);
    let mut rows = vec![ScheduleRow::new(), ScheduleRow::new(), row_with_everything_unknown()];
    rows.push(row_with_everything_unknown());
    let late = Schedule::from_rows(rows);
    let config = ValidationConfig::strict().with_max_errors(0);
    let first = GtfsIntegrityChecker::new(&gtfs, &config).check_schedule(&late);
    let rows: Vec<usize> = first.errors.iter().map(|e| e.row_index).collect();
    assert_eq!(rows, vec![2, 2, 2, 2]);
    let config = ValidationConfig::new().with_gtfs_compliance(GtfsComplianceLevel::Standard);
    let warned = GtfsIntegrityChecker::new(&gtfs, &config).check_schedule(&schedule);
    assert!(warned.is_valid());
    assert_eq!(warned.warnings.len(), 12);
}

#[test]
fn missing_references_are_listed_once() {
    let gtfs = make_gtfs_with_trip("TRIP1", "STOP1");
    let mut known = row_with_everything_unknown();
    known.trip_id = Some("TRIP1".to_string());
    known.start_place = Some("STOP1".to_string());
    known.end_place = Some("S0?".to_string());
    known.route_shape_id = None;
    let mut deadhead = row_with_everything_unknown();
    deadhead.row_type = RowType::Deadhead;
    deadhead.start_place = Some("ELSEWHERE".to_string());
    let schedule = Schedule::from_rows(vec![
        row_with_everything_unknown(),
        known,
        row_with_everything_unknown(),
        deadhead,
    ]);
    let checker = GtfsIntegrityChecker::new(&gtfs, &ValidationConfig::lenient());
    let missing = checker.get_missing_references(&schedule);
    assert_eq!(missing.trip_ids, vec!["T?".to_string()]);
    assert_eq!(missing.stop_ids, vec!["S0?".to_string(), "S1?".to_string(), "S2?".to_string()]);
    assert_eq!(missing.shape_ids, vec!["SH?".to_string()]);
    assert!(!missing.is_empty());
    assert_eq!(missing.total_count(), 5);
    let none = MissingReferences::default();
    assert!(none.is_empty());
    assert_eq!(none.total_count(), 0);
    let empty = checker.get_missing_references(&Schedule::new());
    assert!(empty.is_empty());
}
