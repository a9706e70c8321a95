use schedule_parser::validation::rules::block_continuity::{
    BlockContinuityChecker, BlockContinuityErrorType,
};
use schedule_parser::{Block, RowType, Schedule, ScheduleRow, ValidationConfig};

fn make_block_row(start: &str, end: &str, start_place: &str, end_place: &str) -> ScheduleRow {
    ScheduleRow {
        start_time: Some(start.to_string()),
        end_time: Some(end.to_string()),
        start_place: Some(start_place.to_string()),
        end_place: Some(end_place.to_string()),
        row_type: RowType::Revenue,
        trip_id: Some("T1".to_string()),
        ..Default::default()
    }
}

#[test]
fn test_continuous_block() {
    let mut block = Block::new("B1".to_string());
    block.add_row(make_block_row("08:00:00", "09:00:00", "A", "B"));
    block.add_row(make_block_row("09:00:00", "10:00:00", "B", "C"));
    block.add_row(make_block_row("10:00:00", "11:00:00", "C", "D"));

    let config = ValidationConfig::new();
    let checker = BlockContinuityChecker::new(&config);
    let result = checker.check_block(&block);

    assert!(result.is_valid());
    // Only warning should be about missing pull-out/pull-in
}

#[test]
fn test_location_discontinuity() {
    let mut block = Block::new("B1".to_string());
    block.add_row(make_block_row("08:00:00", "09:00:00", "A", "B"));
    block.add_row(make_block_row("09:00:00", "10:00:00", "C", "D")); // B != C

    let config = ValidationConfig::new();
    let checker = BlockContinuityChecker::new(&config);
    let result = checker.check_block(&block);

    assert!(result.warnings.iter().any(|w| w.code == "W101"));
}

#[test]
fn test_chronology_error() {
    let mut block = Block::new("B1".to_string());
    block.add_row(make_block_row("10:00:00", "11:00:00", "A", "B")); // Later
    block.add_row(make_block_row("08:00:00", "09:00:00", "B", "C")); // Earlier

    let config = ValidationConfig::new();
    let checker = BlockContinuityChecker::new(&config);
    let result = checker.check_block(&block);

    assert!(result
        .errors
        .iter()
        .any(|e| e.error_type == BlockContinuityErrorType::ChronologyError));
}

#[test]
fn test_block_duration_too_long() {
    let mut block = Block::new("B1".to_string());
    block.add_row(make_block_row("06:00:00", "23:00:00", "A", "B")); // 17 hours

    let mut config = ValidationConfig::new();
    config.business_rules.max_block_duration_seconds = 57600; // 16 hours

    let checker = BlockContinuityChecker::new(&config);
    let result = checker.check_block(&block);

    assert!(result
        .errors
        .iter()
        .any(|e| e.error_type == BlockContinuityErrorType::DurationTooLong));
}

#[test]
fn continuous_block_warns_only_of_missing_pulls() {
    let mut block = Block::new("B1".to_string());
    block.add_row(make_block_row("08:00:00", "09:00:00", "A", "B"));
    block.add_row(make_block_row("09:00:00", "10:00:00", "B", "C"));
    let checker = BlockContinuityChecker::new(&ValidationConfig::new());
    let result = checker.check_block(&block);
    assert!(result.errors.is_empty());
    let codes: Vec<&str> = result.warnings.iter().map(|w| w.code.as_str()).collect();
    assert_eq!(codes, vec!["W103", "W104"]);
    assert_eq!(result.warnings[0].message, "Block has no explicit pull-out row");
    assert_eq!(result.warnings[1].message, "Block has no explicit pull-in row");
    assert_eq!(result.warnings[0].block_id, "B1");
    assert_eq!(result.warnings[0].row_index, None);
    let mut quiet = ValidationConfig::new();
    quiet.generate_warnings = false;
    let result = BlockContinuityChecker::new(&quiet).check_block(&block);
    assert!(result.warnings.is_empty());
}

#[test]
fn chronology_error_names_the_row_and_both_times() {
    let mut block = Block::new("B1".to_string());
    block.add_row(make_block_row("10:00:00", "11:00:00", "A", "B"));
    block.add_row(make_block_row("08:00:00", "09:00:00", "B", "C"));
    block.add_row(make_block_row("09:00:00", "09:30:00", "C", "D"));
    let checker = BlockContinuityChecker::new(&ValidationConfig::new());
    let result = checker.check_block(&block);
    assert_eq!(result.errors.len(), 1);
    let error = &result.errors[0];
    assert_eq!(error.error_type, BlockContinuityErrorType::ChronologyError);
    assert_eq!(error.block_id, "B1");
    assert_eq!(error.row_index, Some(1));
    assert_eq!(error.message, "Row 1 starts at 28800 but previous row ends at 39600");
    assert!(!result.is_valid());
}

#[test]
fn unknown_times_are_not_compared() {
    let mut block = Block::new("B1".to_string());
    block.add_row(make_block_row("10:00:00", "?", "A", "B"));
    block.add_row(make_block_row("08:00:00", "09:00:00", "B", "C"));
    block.add_row(make_block_row("?", "09:30:00", "C", "D"));
    let checker = BlockContinuityChecker::new(&ValidationConfig::new());
    assert!(checker.check_block(&block).errors.is_empty());
}

#[test]
fn discontinuity_warning_names_rows_and_places() {
    let mut block = Block::new("B1".to_string());
    block.add_row(make_block_row("08:00:00", "09:00:00", "A", "B"));
    block.add_row(make_block_row("09:00:00", "10:00:00", "C", "D"));
    let mut config = ValidationConfig::new();
    config.generate_warnings = false;
    let result = BlockContinuityChecker::new(&config).check_block(&block);
    assert_eq!(result.warnings.len(), 1);
    assert_eq!(result.warnings[0].code, "W101");
    assert_eq!(result.warnings[0].row_index, Some(0));
    assert_eq!(
        result.warnings[0].message,
        "Location discontinuity: row 0 ends at 'B' but row 1 starts at 'C'"
    );
    assert!(result.is_valid());
}

#[test]
fn only_gaps_above_ten_layovers_are_reported() {
    let mut config = ValidationConfig::new();
    config.generate_warnings = false;
    let mut block = Block::new("B1".to_string());
    block.add_row(make_block_row("08:00:00", "09:00:00", "A", "B"));
    block.add_row(make_block_row("09:50:00", "10:00:00", "B", "C"));
    block.add_row(make_block_row("10:50:01", "11:00:00", "C", "D"));
    let result = BlockContinuityChecker::new(&config).check_block(&block);
    assert_eq!(result.warnings.len(), 1);
    assert_eq!(result.warnings[0].code, "W102");
    assert_eq!(result.warnings[0].row_index, Some(1));
    assert_eq!(result.warnings[0].message, "Large time gap of 3001 seconds between rows 1 and 2");
}

#[test]
fn block_duration_bounds() {
    let mut config = ValidationConfig::new();
    config.generate_warnings = false;
    config.business_rules.min_block_duration_seconds = 3600;
    config.business_rules.max_block_duration_seconds = 7200;
    let checker = BlockContinuityChecker::new(&config);
    let mut short = Block::new("B1".to_string());
    short.add_row(make_block_row("08:00:00", "08:59:59", "A", "B"));
    let result = checker.check_block(&short);
    assert_eq!(result.errors.len(), 1);
    assert_eq!(result.errors[0].error_type, BlockContinuityErrorType::DurationTooShort);
    assert_eq!(result.errors[0].row_index, None);
    assert_eq!(
        result.errors[0].message,
        "Block duration 3599 seconds is less than minimum 3600 seconds"
    );
    let mut exact = Block::new("B2".to_string());
    exact.add_row(make_block_row("08:00:00", "09:00:00", "A", "B"));
    assert!(checker.check_block(&exact).is_valid());
    let mut top = Block::new("B3".to_string());
    top.add_row(make_block_row("08:00:00", "10:00:00", "A", "B"));
    assert!(checker.check_block(&top).is_valid());
    let mut long = Block::new("B4".to_string());
    long.add_row(make_block_row("08:00:00", "10:00:01", "A", "B"));
    let result = checker.check_block(&long);
    assert_eq!(result.errors.len(), 1);
    assert_eq!(result.errors[0].error_type, BlockContinuityErrorType::DurationTooLong);
    assert_eq!(result.errors[0].message, "Block duration 7201 seconds exceeds maximum 7200 seconds");
    let mut unknown = Block::new("B5".to_string());
    unknown.add_row(make_block_row("?", "10:00:01", "A", "B"));
    assert!(checker.check_block(&unknown).is_valid());
}

#[test]
fn blocks_of_a_schedule_are_checked_in_order_within_the_budget() {
    let mut rows = Vec::new();
    for block in ["B3", "B1", "B2"] {
        let mut late = make_block_row("10:00:00", "11:00:00", "A", "B");
        late.block = Some(block.to_string());
        late.start_time = Some(if block == "B1" { "10:00:00" } else { "09:00:00" }.to_string());
        let mut early = make_block_row("09:00:00", "09:30:00", "B", "C");
        early.block = Some(block.to_string());
        rows.push(late);
        rows.push(early);
    }
    let mut schedule = Schedule::from_rows(rows);
    let mut config = ValidationConfig::new();
    config.generate_warnings = false;
    let result = BlockContinuityChecker::new(&config).check_schedule(&mut schedule);
    let blocks: Vec<&str> = result.errors.iter().map(|e| e.block_id.as_str()).collect();
    assert_eq!(blocks, vec!["B2", "B3"]);
    let result = BlockContinuityChecker::new(&config.with_max_errors(1)).check_schedule(&mut schedule);
    let blocks: Vec<&str> = result.errors.iter().map(|e| e.block_id.as_str()).collect();
    assert_eq!(blocks, vec!["B2"]);
}
