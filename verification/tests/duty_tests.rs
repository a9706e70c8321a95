use schedule_parser::{Duty, RowType, ScheduleRow};

fn duty_row(start: &str, end: &str, row_type: RowType) -> ScheduleRow {
    ScheduleRow {
        start_time: Some(start.to_string()),
        end_time: Some(end.to_string()),
        row_type,
        trip_id: if row_type == RowType::Revenue {
            Some("T1".to_string())
        } else {
            None
        },
        ..Default::default()
    }
}

#[test]
fn test_duty_duration() {
    let mut duty = Duty::new("D1".to_string());
    duty.add_row(duty_row("06:00:00", "10:00:00", RowType::Revenue));
    duty.add_row(duty_row("10:30:00", "14:00:00", RowType::Revenue));

    assert_eq!(duty.duration_seconds(), Some(28800)); // 8 hours
}

#[test]
fn test_split_duty() {
    let mut duty = Duty::new("D1".to_string());
    duty.add_row(duty_row("06:00:00", "10:00:00", RowType::Revenue));
    // 4-hour gap
    duty.add_row(duty_row("14:00:00", "18:00:00", RowType::Revenue));

    assert!(duty.is_split_duty(7200)); // 2-hour threshold
    assert!(!duty.is_split_duty(18000)); // 5-hour threshold
}

#[test]
fn test_pieces_of_work() {
    let mut duty = Duty::new("D1".to_string());
    duty.add_row(duty_row("06:00:00", "10:00:00", RowType::Revenue));
    duty.add_row(duty_row("10:00:00", "10:30:00", RowType::Break));
    duty.add_row(duty_row("10:30:00", "14:00:00", RowType::Revenue));

    let pieces = duty.pieces_of_work();
    assert_eq!(pieces.len(), 2);
}

#[test]
fn test_break_time() {
    let mut duty = Duty::new("D1".to_string());
    duty.add_row(duty_row("06:00:00", "10:00:00", RowType::Revenue));
    duty.add_row(duty_row("10:00:00", "10:30:00", RowType::Break)); // 30 min
    duty.add_row(duty_row("10:30:00", "14:00:00", RowType::Revenue));
    duty.add_row(duty_row("14:00:00", "14:15:00", RowType::Break)); // 15 min

    assert_eq!(duty.break_time_seconds(), 2700); // 45 minutes
}

#[test]
fn split_duty_threshold_is_inclusive() {
    let mut duty = Duty::new("D1".to_string());
    duty.add_row(duty_row("06:00:00", "10:00:00", RowType::Revenue));
    duty.add_row(duty_row("14:00:00", "18:00:00", RowType::Revenue));
    assert!(duty.is_split_duty(14400));
    assert!(!duty.is_split_duty(14401));
    assert!(!Duty::new("D2".to_string()).is_split_duty(0));
}

#[test]
fn back_to_back_rows_are_no_split() {
    let mut duty = Duty::new("D1".to_string());
    duty.add_row(duty_row("06:00:00", "10:00:00", RowType::Revenue));
    duty.add_row(duty_row("10:00:00", "18:00:00", RowType::Revenue));
    assert!(!duty.is_split_duty(0));
}

#[test]
fn sign_on_and_sign_off_override_the_rows() {
    let mut duty = Duty::new("D1".to_string());
    duty.add_row(duty_row("06:00:00", "10:00:00", RowType::Revenue));
    duty.sign_on_time = Some("05:30:00".to_string());
    duty.sign_off_time = Some("10:15".to_string());
    assert_eq!(duty.start_time_seconds(), Some(19800));
    assert_eq!(duty.end_time_seconds(), Some(36900));
    assert_eq!(duty.duration_seconds(), Some(17100));
    duty.sign_on_time = Some("early".to_string());
    assert_eq!(duty.start_time_seconds(), Some(21600));
}

#[test]
fn pieces_are_cut_at_breaks_and_reliefs() {
    let mut duty = Duty::new("D1".to_string());
    duty.add_row(duty_row("05:00:00", "05:30:00", RowType::Break));
    duty.add_row(duty_row("06:00:00", "07:00:00", RowType::PullOut));
    duty.add_row(duty_row("07:00:00", "08:00:00", RowType::Revenue));
    duty.add_row(duty_row("08:00:00", "??", RowType::Layover));
    duty.add_row(duty_row("09:00:00", "09:10:00", RowType::Relief));
    duty.add_row(duty_row("09:15:00", "09:20:00", RowType::Break));
    duty.add_row(duty_row("??", "11:00:00", RowType::Revenue));
    duty.add_row(duty_row("11:00:00", "10:00:00", RowType::Deadhead));
    let pieces = duty.pieces_of_work();
    assert_eq!(pieces.len(), 2);
    assert_eq!(pieces[0].rows.len(), 3);
    assert_eq!(pieces[0].start_time_seconds, Some(21600));
    assert_eq!(pieces[0].end_time_seconds, Some(28800));
    assert_eq!(pieces[0].duration_seconds(), Some(7200));
    assert_eq!(pieces[1].rows.len(), 2);
    assert_eq!(pieces[1].start_time_seconds, None);
    assert_eq!(pieces[1].end_time_seconds, Some(39600));
    assert_eq!(pieces[1].duration_seconds(), None);
    for piece in &pieces {
        assert!(piece.rows.iter().all(|r| !r.is_break_or_relief()));
    }
}

#[test]
fn the_end_of_a_piece_moves_forward_only() {
    let mut duty = Duty::new("D1".to_string());
    duty.add_row(duty_row("06:00:00", "??", RowType::Revenue));
    duty.add_row(duty_row("06:30:00", "09:00:00", RowType::Revenue));
    duty.add_row(duty_row("07:00:00", "08:00:00", RowType::Revenue));
    duty.add_row(duty_row("08:00:00", "later", RowType::Revenue));
    let pieces = duty.pieces_of_work();
    assert_eq!(pieces.len(), 1);
    assert_eq!(pieces[0].start_time_seconds, Some(21600));
    assert_eq!(pieces[0].end_time_seconds, Some(32400));
    assert_eq!(pieces[0].duration_seconds(), Some(10800));
}

#[test]
fn duty_without_rows_has_no_pieces() {
    let duty = Duty::new("D1".to_string());
    assert!(duty.is_empty());
    assert_eq!(duty.len(), 0);
    assert!(duty.pieces_of_work().is_empty());
    assert_eq!(duty.duration_seconds(), None);
}

#[test]
fn duty_of_breaks_only_has_no_pieces() {
    let mut duty = Duty::new("D1".to_string());
    duty.add_row(duty_row("10:00:00", "10:30:00", RowType::Break));
    duty.add_row(duty_row("10:30:00", "11:00:00", RowType::Relief));
    assert!(duty.pieces_of_work().is_empty());
    assert_eq!(duty.breaks().len(), 1);
    assert_eq!(duty.reliefs().len(), 1);
    assert_eq!(duty.break_time_seconds(), 3600);
    assert_eq!(duty.driving_time_seconds(), 0);
}

#[test]
fn driving_time_counts_revenue_and_deadheads() {
    let mut duty = Duty::new("D1".to_string());
    duty.add_row(duty_row("06:00:00", "06:30:00", RowType::PullOut));
    duty.add_row(duty_row("06:30:00", "08:00:00", RowType::Revenue));
    duty.add_row(duty_row("08:00:00", "08:10:00", RowType::Layover));
    duty.add_row(duty_row("08:10:00", "08:20:00", RowType::Deadhead));
    duty.add_row(duty_row("08:20:00", "08:50:00", RowType::Break));
    assert_eq!(duty.driving_time_seconds(), 1800 + 5400 + 600);
    assert_eq!(duty.break_time_seconds(), 1800);
}

#[test]
fn duty_blocks_are_listed_once_in_order() {
    let mut duty = Duty::new("D1".to_string());
    for block in ["B2", "B10", "B2", "B1"] {
        let mut row = duty_row("06:00:00", "07:00:00", RowType::Revenue);
        row.block = Some(block.to_string());
        duty.add_row(row);
    }
    duty.add_row(duty_row("07:00:00", "08:00:00", RowType::Revenue));
    assert_eq!(duty.block_ids(), vec!["B1".to_string(), "B10".to_string(), "B2".to_string()]);
    assert_eq!(duty.summary().blocks_worked, 3);
}

#[test]
fn duty_takes_run_and_depot_from_the_first_row_that_has_them() {
    let mut duty = Duty::new("D1".to_string());
    duty.add_row(duty_row("06:00:00", "07:00:00", RowType::Revenue));
    let mut second = duty_row("07:00:00", "08:00:00", RowType::Revenue);
    second.run_number = Some("R7".to_string());
    second.depot = Some("NORTH".to_string());
    duty.add_row(second);
    let mut third = duty_row("08:00:00", "09:00:00", RowType::Revenue);
    third.run_number = Some("R8".to_string());
    third.depot = Some("SOUTH".to_string());
    duty.add_row(third);
    assert_eq!(duty.run_number, Some("R7".to_string()));
    assert_eq!(duty.depot, Some("NORTH".to_string()));
}

#[test]
fn duty_becomes_a_shift() {
    let mut duty = Duty::new("D1".to_string());
    duty.add_row(duty_row("06:00:00", "10:00:00", RowType::Revenue));
    let mut pause = duty_row("10:00:00", "10:30:00", RowType::Break);
    pause.start_place = Some("Canteen".to_string());
    duty.add_row(pause);
    duty.add_row(duty_row("10:30:00", "x", RowType::Break));
    duty.add_row(duty_row("11:00:00", "11:10:00", RowType::Relief));
    duty.add_row(duty_row("11:10:00", "14:00:00", RowType::Revenue));
    duty.depot = Some("NORTH".to_string());
    let shift = duty.to_shift();
    assert_eq!(shift.shift_id, "D1");
    assert_eq!(shift.duty_id, "D1");
    assert_eq!(shift.sign_on_seconds, Some(21600));
    assert_eq!(shift.sign_off_seconds, Some(50400));
    assert_eq!(shift.depot, Some("NORTH".to_string()));
    assert_eq!(shift.breaks.len(), 1);
    assert_eq!(shift.breaks[0].start_time_seconds, 36000);
    assert_eq!(shift.breaks[0].end_time_seconds, 37800);
    assert_eq!(shift.breaks[0].location, Some("Canteen".to_string()));
    assert!(!shift.breaks[0].is_paid);
    assert_eq!(shift.paid_time_seconds(), Some(28800 - 1800));
}

#[test]
fn duty_summary_holds_the_figures() {
    let mut duty = Duty::new("D1".to_string());
    duty.add_row(duty_row("10:30:00", "14:00:00", RowType::Revenue));
    duty.add_row(duty_row("06:00:00", "10:00:00", RowType::Revenue));
    duty.add_row(duty_row("10:00:00", "10:30:00", RowType::Break));
    duty.sort_rows_by_time();
    let summary = duty.summary();
    assert_eq!(summary.duty_id, "D1");
    assert_eq!(summary.total_rows, 3);
    assert_eq!(summary.duration_seconds, Some(28800));
    assert_eq!(summary.driving_time_seconds, 27000);
    assert_eq!(summary.break_time_seconds, 1800);
    assert_eq!(summary.pieces_of_work, 2);
    assert_eq!(summary.blocks_worked, 0);
    let copy = duty.clone();
    assert_eq!(copy.duty_id, "D1");
    assert_eq!(copy.rows.len(), 3);
}
