use schedule_parser::{RowType, ScheduleRow};

#[test]
fn test_schedule_row_duration() {
    let row = ScheduleRow {
        start_time: Some("08:00:00".to_string()),
        end_time: Some("08:30:00".to_string()),
        ..Default::default()
    };
    assert_eq!(row.duration_seconds(), Some(1800));
}

#[test]
fn duration_is_absent_when_end_lies_before_start() {
    let row = ScheduleRow {
        start_time: Some("09:00:00".to_string()),
        end_time: Some("08:30:00".to_string()),
        ..Default::default()
    };
    assert_eq!(row.duration_seconds(), None);
}

#[test]
fn duration_is_absent_when_a_time_is_missing_or_unreadable() {
    let row = ScheduleRow {
        start_time: Some("08:00:00".to_string()),
        ..Default::default()
    };
    assert_eq!(row.duration_seconds(), None);
    let row = ScheduleRow {
        start_time: Some("soon".to_string()),
        end_time: Some("08:30:00".to_string()),
        ..Default::default()
    };
    assert_eq!(row.start_time_seconds(), None);
    assert_eq!(row.duration_seconds(), None);
}

#[test]
fn revenue_needs_a_trip_reference() {
    let row = ScheduleRow {
        row_type: RowType::Revenue,
        ..Default::default()
    };
    assert!(!row.is_revenue());
    let row = ScheduleRow {
        row_type: RowType::Revenue,
        trip_id: Some("T1".to_string()),
        ..Default::default()
    };
    assert!(row.is_revenue());
    let row = ScheduleRow {
        row_type: RowType::Deadhead,
        trip_id: Some("T1".to_string()),
        ..Default::default()
    };
    assert!(!row.is_revenue());
}

#[test]
fn row_kinds_are_told_apart() {
    let kinds = [
        (RowType::Revenue, false, false),
        (RowType::PullOut, true, false),
        (RowType::PullIn, true, false),
        (RowType::Deadhead, true, false),
        (RowType::Break, false, true),
        (RowType::Relief, false, true),
        (RowType::Layover, false, false),
    ];
    for (kind, deadhead, pause) in kinds {
        let row = ScheduleRow {
            row_type: kind,
            ..Default::default()
        };
        assert_eq!(row.is_deadhead(), deadhead);
        assert_eq!(row.is_break_or_relief(), pause);
    }
}

#[test]
fn new_row_is_blank() {
    let row = ScheduleRow::new();
    assert_eq!(row.row_type, RowType::Revenue);
    assert_eq!(row.trip_id, None);
    assert_eq!(row.block, None);
    assert_eq!(row.start_lat, None);
    assert_eq!(RowType::default(), RowType::Revenue);
}

#[test]
fn clone_keeps_every_field() {
    let row = ScheduleRow {
        run_number: Some("R1".to_string()),
        block: Some("B1".to_string()),
        start_place: Some("A".to_string()),
        end_place: Some("B".to_string()),
        start_time: Some("08:00".to_string()),
        end_time: Some("09:00".to_string()),
        trip_id: Some("T1".to_string()),
        depot: Some("D".to_string()),
        vehicle_class: Some("bus".to_string()),
        vehicle_type: Some("12m".to_string()),
        start_lat: Some(407_128_000),
        start_lon: Some(-740_060_000),
        end_lat: Some(407_580_000),
        end_lon: Some(-739_855_000),
        route_shape_id: Some("S1".to_string()),
        row_type: RowType::Revenue,
        duty_id: Some("D1".to_string()),
        shift_id: Some("SH1".to_string()),
        route_short_name: Some("10".to_string()),
        headsign: Some("Centre".to_string()),
    };
    let copy = row.clone();
    assert_eq!(format!("{:?}", copy), format!("{:?}", row));
}
