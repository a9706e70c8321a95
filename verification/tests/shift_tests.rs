use schedule_parser::{Break, Shift};

#[test]
fn test_shift_duration() {
    let shift = Shift {
        shift_id: "S1".to_string(),
        duty_id: "D1".to_string(),
        sign_on_seconds: Some(21600),  // 06:00
        sign_off_seconds: Some(54000), // 15:00
        breaks: vec![],
        depot: None,
    };

    assert_eq!(shift.total_duration_seconds(), Some(32400)); // 9 hours
}

#[test]
fn test_paid_time_with_unpaid_break() {
    let shift = Shift {
        shift_id: "S1".to_string(),
        duty_id: "D1".to_string(),
        sign_on_seconds: Some(21600),           // 06:00
        sign_off_seconds: Some(54000),          // 15:00
        breaks: vec![Break::new(36000, 37800)], // 30 min unpaid break at 10:00
        depot: None,
    };

    assert_eq!(shift.total_duration_seconds(), Some(32400)); // 9 hours
    assert_eq!(shift.paid_time_seconds(), Some(30600)); // 8.5 hours
}

#[test]
fn test_mixed_breaks() {
    let shift = Shift {
        shift_id: "S1".to_string(),
        duty_id: "D1".to_string(),
        sign_on_seconds: Some(21600),
        sign_off_seconds: Some(54000),
        breaks: vec![
            Break::paid(28800, 29700), // 15 min paid at 08:00
            Break::new(36000, 37800),  // 30 min unpaid at 10:00
        ],
        depot: None,
    };

    assert_eq!(shift.paid_break_time_seconds(), 900);
    assert_eq!(shift.unpaid_break_time_seconds(), 1800);
    assert_eq!(shift.total_break_time_seconds(), 2700);
}

#[test]
fn test_breaks_valid() {
    let mut shift = Shift {
        shift_id: "S1".to_string(),
        duty_id: "D1".to_string(),
        sign_on_seconds: Some(21600),
        sign_off_seconds: Some(54000),
        breaks: vec![
            Break::new(28800, 29700), // 08:00-08:15
            Break::new(36000, 37800), // 10:00-10:30
        ],
        depot: None,
    };

    assert!(shift.breaks_valid());

    // Add overlapping break
    shift.breaks.push(Break::new(29000, 29500)); // overlaps with first
    assert!(!shift.breaks_valid());
}

#[test]
fn paid_time_never_goes_below_zero() {
    let shift = Shift {
        shift_id: "S1".to_string(),
        duty_id: "D1".to_string(),
        sign_on_seconds: Some(1000),
        sign_off_seconds: Some(2000),
        breaks: vec![Break::new(0, 5000)],
        depot: None,
    };
    assert_eq!(shift.paid_time_seconds(), Some(0));
}

#[test]
fn paid_time_is_absent_without_bounds() {
    let mut shift = Shift::new("S1".to_string(), "D1".to_string());
    assert_eq!(shift.total_duration_seconds(), None);
    assert_eq!(shift.paid_time_seconds(), None);
    shift.sign_on_seconds = Some(2000);
    shift.sign_off_seconds = Some(1000);
    assert_eq!(shift.total_duration_seconds(), None);
    assert_eq!(shift.paid_time_seconds(), None);
}

#[test]
fn break_durations_saturate() {
    assert_eq!(Break::new(100, 40).duration_seconds(), 0);
    assert_eq!(Break::new(40, 100).duration_seconds(), 60);
    let shift = Shift {
        shift_id: "S1".to_string(),
        duty_id: "D1".to_string(),
        sign_on_seconds: None,
        sign_off_seconds: None,
        breaks: vec![Break::new(0, 4294967295), Break::paid(0, 10)],
        depot: None,
    };
    assert_eq!(shift.total_break_time_seconds(), 4294967295);
    assert_eq!(shift.paid_break_time_seconds(), 10);
}

#[test]
fn breaks_outside_the_shift_are_invalid() {
    let mut shift = Shift::new("S1".to_string(), "D1".to_string());
    assert!(shift.breaks_valid());
    shift.add_break(Break::new(100, 200));
    assert!(shift.breaks_valid());
    shift.sign_on_seconds = Some(150);
    shift.sign_off_seconds = Some(300);
    assert!(!shift.breaks_valid());
    shift.sign_on_seconds = Some(50);
    shift.sign_off_seconds = Some(180);
    assert!(!shift.breaks_valid());
    shift.sign_off_seconds = Some(200);
    assert!(shift.breaks_valid());
}

#[test]
fn breaks_are_compared_in_the_order_of_their_starts() {
    let shift = Shift {
        shift_id: "S1".to_string(),
        duty_id: "D1".to_string(),
        sign_on_seconds: None,
        sign_off_seconds: None,
        breaks: vec![Break::new(300, 400), Break::new(100, 200), Break::new(200, 300)],
        depot: None,
    };
    assert!(shift.breaks_valid());
    let shift = Shift {
        shift_id: "S1".to_string(),
        duty_id: "D1".to_string(),
        sign_on_seconds: None,
        sign_off_seconds: None,
        breaks: vec![Break::new(300, 400), Break::new(100, 301)],
        depot: None,
    };
    assert!(!shift.breaks_valid());
}

#[test]
fn shift_summary_and_location() {
    let mut shift = Shift::new("S1".to_string(), "D1".to_string());
    shift.sign_on_seconds = Some(21600);
    shift.sign_off_seconds = Some(54000);
    shift.add_break(Break::new(36000, 37800).with_location("Canteen"));
    assert_eq!(shift.breaks[0].location, Some("Canteen".to_string()));
    assert!(!shift.breaks[0].is_paid);
    let summary = shift.summary();
    assert_eq!(summary.shift_id, "S1");
    assert_eq!(summary.total_duration_seconds, Some(32400));
    assert_eq!(summary.paid_time_seconds, Some(30600));
    assert_eq!(summary.break_count, 1);
    assert_eq!(summary.total_break_time_seconds, 1800);
}
