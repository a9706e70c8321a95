use schedule_parser::validation::rules::business_rules::{
    BusinessRuleChecker, BusinessRuleErrorType,
};
use schedule_parser::{Duty, RowType, Schedule, ScheduleRow, ValidationConfig};

fn rule_row(start: &str, end: &str, row_type: RowType) -> ScheduleRow {
    ScheduleRow {
        start_time: Some(start.to_string()),
        end_time: Some(end.to_string()),
        row_type,
        trip_id: if row_type == RowType::Revenue {
            Some("T1".to_string())
        } else {
            None
        },
        ..Default::default()
    }
}

#[test]
fn test_trip_too_long() {
    let config = ValidationConfig::new();
    let checker = BusinessRuleChecker::new(&config);

    // 5-hour trip (exceeds default 4-hour max)
    let row = rule_row("08:00:00", "13:00:00", RowType::Revenue);
    let result = checker.check_row(&row, 0);

    assert!(result
        .errors
        .iter()
        .any(|e| e.error_type == BusinessRuleErrorType::TripTooLong));
}

#[test]
fn test_short_layover() {
    let config = ValidationConfig::new();
    let checker = BusinessRuleChecker::new(&config);

    let row1 = rule_row("08:00:00", "09:00:00", RowType::Revenue);
    let row2 = rule_row("09:02:00", "10:00:00", RowType::Revenue); // 2 min layover

    let result = checker.check_layover(&row1, &row2, 1);

    assert!(result
        .errors
        .iter()
        .any(|e| e.error_type == BusinessRuleErrorType::LayoverTooShort));
}

#[test]
fn test_acceptable_layover() {
    let config = ValidationConfig::new();
    let checker = BusinessRuleChecker::new(&config);

    let row1 = rule_row("08:00:00", "09:00:00", RowType::Revenue);
    let row2 = rule_row("09:10:00", "10:00:00", RowType::Revenue); // 10 min layover

    let result = checker.check_layover(&row1, &row2, 1);

    assert!(result.is_valid());
}

#[test]
fn test_duty_too_long() {
    let config = ValidationConfig::new();
    let checker = BusinessRuleChecker::new(&config);

    let mut duty = Duty::new("D1".to_string());
    duty.add_row(rule_row("06:00:00", "16:00:00", RowType::Revenue)); // 10 hours

    let result = checker.check_duty(&duty);

    assert!(result
        .errors
        .iter()
        .any(|e| e.error_type == BusinessRuleErrorType::DutyTooLong));
}

#[test]
fn test_continuous_driving_too_long() {
    let config = ValidationConfig::new();
    let checker = BusinessRuleChecker::new(&config);

    let mut duty = Duty::new("D1".to_string());
    // 5 hours continuous (exceeds 4.5 hour default max)
    duty.add_row(rule_row("06:00:00", "11:00:00", RowType::Revenue));

    let result = checker.check_duty(&duty);

    assert!(result
        .errors
        .iter()
        .any(|e| e.error_type == BusinessRuleErrorType::ContinuousDrivingTooLong));
}

#[test]
fn test_short_break() {
    let config = ValidationConfig::new();
    let checker = BusinessRuleChecker::new(&config);

    // 15-minute break (less than 30-min default minimum)
    let row = rule_row("10:00:00", "10:15:00", RowType::Break);
    let result = checker.check_row(&row, 0);

    assert!(result
        .errors
        .iter()
        .any(|e| e.error_type == BusinessRuleErrorType::BreakTooShort));
}

#[test]
fn a_short_break_gives_exactly_one_error_for_its_row() {
    let checker = BusinessRuleChecker::new(&ValidationConfig::new());
    let row = rule_row("10:00:00", "10:15:00", RowType::Break);
    let result = checker.check_row(&row, 7);
    assert_eq!(result.errors.len(), 1);
    assert!(result.warnings.is_empty());
    assert_eq!(result.errors[0].error_type, BusinessRuleErrorType::BreakTooShort);
    assert_eq!(result.errors[0].context, "row 7");
    assert_eq!(
        result.errors[0].message,
        "Break duration 900 seconds is less than minimum 1800 seconds"
    );
    let exact = rule_row("10:00:00", "10:30:00", RowType::Relief);
    assert!(checker.check_row(&exact, 0).is_valid());
    let short_relief = rule_row("10:00:00", "10:29:59", RowType::Relief);
    assert_eq!(checker.check_row(&short_relief, 0).errors.len(), 1);
}

#[test]
fn trip_duration_limit_is_exclusive() {
    let checker = BusinessRuleChecker::new(&ValidationConfig::new());
    assert!(checker.check_row(&rule_row("08:00:00", "12:00:00", RowType::Revenue), 0).is_valid());
    let result = checker.check_row(&rule_row("08:00:00", "12:00:01", RowType::Revenue), 12);
    assert_eq!(result.errors.len(), 1);
    assert_eq!(result.errors[0].context, "row 12");
    assert_eq!(
        result.errors[0].message,
        "Trip duration 14401 seconds exceeds maximum 14400 seconds"
    );
    assert!(checker.check_row(&rule_row("08:00:00", "20:00:00", RowType::Deadhead), 0).is_valid());
    let mut no_trip = rule_row("08:00:00", "20:00:00", RowType::Revenue);
    no_trip.trip_id = None;
    assert!(checker.check_row(&no_trip, 0).is_valid());
}

#[test]
fn missing_coordinates_are_reported_when_flagged() {
    let mut config = ValidationConfig::new();
    let row = rule_row("08:00:00", "09:00:00", RowType::Revenue);
    assert!(BusinessRuleChecker::new(&config).check_row(&row, 0).warnings.is_empty());
    config.business_rules.flag_missing_coordinates = true;
    let checker = BusinessRuleChecker::new(&config);
    let result = checker.check_row(&row, 3);
    let codes: Vec<&str> = result.warnings.iter().map(|w| w.code.as_str()).collect();
    assert_eq!(codes, vec!["W201", "W202"]);
    assert_eq!(result.warnings[0].context, "row 3");
    assert_eq!(result.warnings[0].message, "Revenue trip missing start coordinates");
    assert_eq!(result.warnings[1].message, "Revenue trip missing end coordinates");
    let mut located = rule_row("08:00:00", "09:00:00", RowType::Revenue);
    located.start_lat = Some(1);
    located.start_lon = Some(2);
    located.end_lat = Some(3);
    let result = checker.check_row(&located, 0);
    assert_eq!(result.warnings.len(), 1);
    assert_eq!(result.warnings[0].code, "W202");
    assert!(checker.check_row(&rule_row("08:00:00", "09:00:00", RowType::Break), 0).warnings.is_empty());
}

#[test]
fn layover_error_names_both_rows() {
    let checker = BusinessRuleChecker::new(&ValidationConfig::new());
    let row1 = rule_row("08:00:00", "09:00:00", RowType::Revenue);
    let row2 = rule_row("09:02:00", "10:00:00", RowType::Revenue);
    let result = checker.check_layover(&row1, &row2, 5);
    assert_eq!(result.errors.len(), 1);
    assert_eq!(result.errors[0].context, "rows 4-5");
    assert_eq!(result.errors[0].message, "Layover 120 seconds is less than minimum 300 seconds");
    let touching = rule_row("09:00:00", "10:00:00", RowType::Revenue);
    assert!(checker.check_layover(&row1, &touching, 1).is_valid());
    let exact = rule_row("09:05:00", "10:00:00", RowType::Revenue);
    assert!(checker.check_layover(&row1, &exact, 1).is_valid());
    let overlapping = rule_row("08:30:00", "10:00:00", RowType::Revenue);
    assert!(checker.check_layover(&row1, &overlapping, 1).is_valid());
    let pause = rule_row("09:02:00", "10:00:00", RowType::Break);
    assert!(checker.check_layover(&row1, &pause, 1).is_valid());
}

#[test]
fn a_long_duty_gives_exactly_one_duty_error_whatever_its_pieces() {
    let checker = BusinessRuleChecker::new(&ValidationConfig::new());
    let mut duty = Duty::new("D1".to_string());
    duty.add_row(rule_row("05:00:00", "10:00:00", RowType::Revenue));
    duty.add_row(rule_row("10:00:00", "10:30:00", RowType::Break));
    duty.add_row(rule_row("10:30:00", "15:30:00", RowType::Revenue));
    duty.add_row(rule_row("15:30:00", "16:00:00", RowType::Relief));
    duty.add_row(rule_row("16:00:00", "17:00:00", RowType::Revenue));
    let result = checker.check_duty(&duty);
    let kinds: Vec<BusinessRuleErrorType> = result.errors.iter().map(|e| e.error_type).collect();
    assert_eq!(
        kinds,
        vec![
            BusinessRuleErrorType::DutyTooLong,
            BusinessRuleErrorType::ContinuousDrivingTooLong,
            BusinessRuleErrorType::ContinuousDrivingTooLong
        ]
    );
    assert_eq!(result.errors[0].context, "duty D1");
    assert_eq!(result.errors[0].message, "Duty length 43200 seconds exceeds maximum 32400 seconds");
    assert_eq!(result.errors[1].context, "duty D1 piece 0");
    assert_eq!(result.errors[2].context, "duty D1 piece 1");
    assert_eq!(
        result.errors[1].message,
        "Continuous driving 18000 seconds exceeds maximum 16200 seconds"
    );
    let mut no_pieces = Duty::new("D2".to_string());
    no_pieces.sign_on_time = Some("05:00".to_string());
    no_pieces.sign_off_time = Some("23:00".to_string());
    let result = checker.check_duty(&no_pieces);
    assert_eq!(result.errors.len(), 1);
    assert_eq!(result.errors[0].error_type, BusinessRuleErrorType::DutyTooLong);
    let mut fine = Duty::new("D3".to_string());
    fine.add_row(rule_row("05:00:00", "09:30:00", RowType::Revenue));
    assert!(checker.check_duty(&fine).is_valid());
}

#[test]
fn schedule_rows_are_checked_with_their_layovers_and_orphans() {
    let mut rows = vec![
        rule_row("08:00:00", "13:00:00", RowType::Revenue),
        rule_row("13:01:00", "14:00:00", RowType::Revenue),
        rule_row("14:00:00", "14:10:00", RowType::Break),
    ];
    rows[1].block = Some("B1".to_string());
    let schedule = Schedule::from_rows(rows);
    let checker = BusinessRuleChecker::new(&ValidationConfig::new());
    let result = checker.check_schedule(&schedule);
    let kinds: Vec<BusinessRuleErrorType> = result.errors.iter().map(|e| e.error_type).collect();
    assert_eq!(
        kinds,
        vec![
            BusinessRuleErrorType::TripTooLong,
            BusinessRuleErrorType::LayoverTooShort,
            BusinessRuleErrorType::BreakTooShort
        ]
    );
    assert_eq!(result.errors[1].context, "rows 0-1");
    assert_eq!(result.warnings.len(), 1);
    assert_eq!(result.warnings[0].code, "W203");
    assert_eq!(result.warnings[0].context, "row 0");
    assert_eq!(result.warnings[0].message, "Revenue trip not assigned to any block");
    let limited = BusinessRuleChecker::new(&ValidationConfig::new().with_max_errors(2));
    let result = limited.check_schedule(&schedule);
    assert_eq!(result.errors.len(), 2);
    assert!(result.warnings.is_empty());
    let mut config = ValidationConfig::new();
    config.business_rules.flag_orphan_trips = false;
    assert!(BusinessRuleChecker::new(&config).check_schedule(&schedule).warnings.is_empty());
}

#[test]
fn duties_of_a_schedule_are_checked_in_order() {
    let mut rows = Vec::new();
    for duty in ["D2", "D1"] {
        let mut row = rule_row("06:00:00", "16:00:00", RowType::Revenue);
        row.duty_id = Some(duty.to_string());
        rows.push(row);
    }
    let mut schedule = Schedule::from_rows(rows);
    let checker = BusinessRuleChecker::new(&ValidationConfig::new());
    let result = checker.check_duties(&mut schedule);
    let contexts: Vec<&str> = result.errors.iter().map(|e| e.context.as_str()).collect();
    assert_eq!(contexts, vec!["duty D1", "duty D1 piece 0", "duty D2", "duty D2 piece 0"]);
    let limited = BusinessRuleChecker::new(&ValidationConfig::new().with_max_errors(1));
    assert_eq!(limited.check_duties(&mut schedule).errors.len(), 2);
    let mut off = ValidationConfig::new();
    off.validate_duty_constraints = false;
    assert!(BusinessRuleChecker::new(&off).check_duties(&mut schedule).errors.is_empty());
}
