use schedule_parser::{RowType, Schedule, ScheduleRow};

fn sample_row(block: &str, trip_id: Option<&str>, start: &str) -> ScheduleRow {
    ScheduleRow {
        block: Some(block.to_string()),
        trip_id: trip_id.map(|s| s.to_string()),
        start_time: Some(start.to_string()),
        row_type: if trip_id.is_some() {
            RowType::Revenue
        } else {
            RowType::Deadhead
        },
        ..Default::default()
    }
}

#[test]
fn test_schedule_summary() {
    let schedule = Schedule::from_rows(vec![
        sample_row("B1", Some("T1"), "08:00:00"),
        sample_row("B1", Some("T2"), "09:00:00"),
        sample_row("B1", None, "10:00:00"), // deadhead
        sample_row("B2", Some("T3"), "08:30:00"),
    ]);

    let summary = schedule.summary();
    assert_eq!(summary.total_rows, 4);
    assert_eq!(summary.revenue_trips, 3);
    assert_eq!(summary.deadheads, 1);
    assert_eq!(summary.unique_blocks, 2);
}

#[test]
fn test_derive_blocks() {
    let mut schedule = Schedule::from_rows(vec![
        sample_row("B1", Some("T1"), "08:00:00"),
        sample_row("B1", Some("T2"), "09:00:00"),
        sample_row("B2", Some("T3"), "08:30:00"),
    ]);

    let blocks = schedule.blocks();
    assert_eq!(blocks.len(), 2);
    assert!(blocks.contains_key("B1"));
    assert!(blocks.contains_key("B2"));
    assert_eq!(blocks.get("B1").unwrap().rows.len(), 2);
}

fn trips_of(rows: &[ScheduleRow]) -> Vec<String> {
    rows.iter().map(|r| r.trip_id.clone().unwrap_or_default()).collect()
}

#[test]
fn rows_without_block_belong_to_no_block() {
    let mut loose = sample_row("B1", Some("T9"), "07:00:00");
    loose.block = None;
    let mut schedule = Schedule::from_rows(vec![
        sample_row("B1", Some("T1"), "08:00:00"),
        loose,
    ]);
    let blocks = schedule.blocks();
    assert_eq!(blocks.len(), 1);
    assert_eq!(trips_of(&blocks.get("B1").unwrap().rows), vec!["T1"]);
    assert!(!blocks.contains_key(""));
    assert!(blocks.get("B2").is_none());
    assert!(schedule.get_block("B2").is_none());
}

#[test]
fn blocks_come_in_order_of_their_identifiers_with_rows_in_order_of_time() {
    let mut schedule = Schedule::from_rows(vec![
        sample_row("B2", Some("T5"), "09:00:00"),
        sample_row("B10", Some("T3"), "08:30:00"),
        sample_row("B2", Some("T4"), "08:00:00"),
        sample_row("B2", Some("T6"), "08:00:00"),
        sample_row("B1", Some("T1"), "nonsense"),
        sample_row("B1", Some("T2"), "00:00:00"),
    ]);
    let blocks = schedule.blocks();
    let ids: Vec<&str> = blocks.entries.iter().map(|b| b.block_id.as_str()).collect();
    assert_eq!(ids, vec!["B1", "B10", "B2"]);
    assert_eq!(trips_of(&blocks.entries[0].rows), vec!["T1", "T2"]);
    assert_eq!(trips_of(&blocks.entries[2].rows), vec!["T4", "T6", "T5"]);
}

#[test]
fn deriving_twice_gives_the_same() {
    let mut schedule = Schedule::from_rows(vec![
        sample_row("B2", Some("T5"), "09:00:00"),
        sample_row("B1", Some("T3"), "08:30:00"),
        sample_row("B2", Some("T4"), "08:00:00"),
    ]);
    schedule.derive_blocks();
    schedule.derive_duties();
    let first = format!("{:?}", schedule.blocks);
    let first_duties = format!("{:?}", schedule.duties);
    schedule.derive_blocks();
    schedule.derive_duties();
    assert_eq!(format!("{:?}", schedule.blocks), first);
    assert_eq!(format!("{:?}", schedule.duties), first_duties);
    let summary = format!("{:?}", schedule.blocks().get("B2").unwrap().summary());
    assert_eq!(format!("{:?}", schedule.blocks().get("B2").unwrap().summary()), summary);
}

#[test]
fn derived_blocks_follow_added_rows() {
    let mut schedule = Schedule::from_rows(vec![sample_row("B1", Some("T1"), "08:00:00")]);
    assert_eq!(schedule.blocks().len(), 1);
    schedule.add_row(sample_row("B2", Some("T2"), "09:00:00"));
    assert!(schedule.blocks.is_none());
    assert!(schedule.duties.is_none());
    assert_eq!(schedule.blocks().len(), 2);
    schedule.rows.push(sample_row("B3", Some("T3"), "10:00:00"));
    assert_eq!(schedule.blocks().len(), 3);
    assert_eq!(schedule.get_block("B3").unwrap().rows.len(), 1);
}

#[test]
fn derived_blocks_do_not_alias_the_rows() {
    let mut schedule = Schedule::from_rows(vec![sample_row("B1", Some("T1"), "08:00:00")]);
    schedule.derive_blocks();
    schedule.blocks.as_mut().unwrap().entries[0].rows[0].trip_id = Some("changed".to_string());
    assert_eq!(schedule.rows[0].trip_id, Some("T1".to_string()));
}

#[test]
fn duties_fall_back_to_the_run_number() {
    let mut a = sample_row("B1", Some("T1"), "08:00:00");
    a.duty_id = Some("D1".to_string());
    a.run_number = Some("R9".to_string());
    let mut b = sample_row("B1", Some("T2"), "07:00:00");
    b.run_number = Some("D1".to_string());
    let mut c = sample_row("B1", Some("T3"), "06:00:00");
    c.run_number = Some("R9".to_string());
    let d = sample_row("B1", Some("T4"), "05:00:00");
    let mut schedule = Schedule::from_rows(vec![a, b, c, d]);
    let duties = schedule.duties();
    assert_eq!(duties.len(), 2);
    assert!(duties.contains_key("D1"));
    assert!(duties.contains_key("R9"));
    assert_eq!(trips_of(&duties.get("D1").unwrap().rows), vec!["T2", "T1"]);
    assert_eq!(duties.get("D1").unwrap().run_number, Some("R9".to_string()));
    assert_eq!(trips_of(&duties.get("R9").unwrap().rows), vec!["T3"]);
    assert_eq!(schedule.get_duty("R9").unwrap().duty_id, "R9");
    assert!(schedule.get_duty("T4").is_none());
}

#[test]
fn identifier_lists_are_sorted_and_unique() {
    let mut rows = vec![
        sample_row("B2", Some("T2"), "08:00:00"),
        sample_row("B1", Some("T1"), "08:00:00"),
        sample_row("B2", Some("T2"), "09:00:00"),
        sample_row("B1", None, "10:00:00"),
    ];
    rows[0].run_number = Some("R2".to_string());
    rows[1].run_number = Some("R1".to_string());
    rows[2].run_number = Some("R2".to_string());
    rows[0].depot = Some("Z".to_string());
    rows[3].depot = Some("A".to_string());
    rows[3].trip_id = Some("T0".to_string());
    let schedule = Schedule::from_rows(rows);
    assert_eq!(schedule.block_ids(), vec!["B1".to_string(), "B2".to_string()]);
    assert_eq!(schedule.run_numbers(), vec!["R1".to_string(), "R2".to_string()]);
    assert_eq!(schedule.depots(), vec!["A".to_string(), "Z".to_string()]);
    assert_eq!(schedule.trip_ids(), vec!["T1".to_string(), "T2".to_string()]);
    assert_eq!(schedule.rows_for_block("B2").len(), 2);
    assert_eq!(schedule.rows_for_run("R1").len(), 1);
    assert_eq!(schedule.rows_for_run("R3").len(), 0);
    assert_eq!(schedule.revenue_trips().len(), 3);
    assert_eq!(schedule.deadheads().len(), 1);
    let summary = schedule.summary();
    assert_eq!(summary.unique_runs, 2);
    assert_eq!(summary.unique_depots, 2);
    assert_eq!(summary.breaks_and_reliefs, 0);
}

#[test]
fn identifiers_are_ordered_by_their_bytes() {
    let rows: Vec<ScheduleRow> = ["b", "B", "a", "é", "aa", "", "a"]
        .iter()
        .map(|id| sample_row(id, Some("T"), "08:00:00"))
        .collect();
    let schedule = Schedule::from_rows(rows);
    let mut expected: Vec<String> =
        ["b", "B", "a", "é", "aa", ""].iter().map(|s| s.to_string()).collect();
    expected.sort();
    assert_eq!(schedule.block_ids(), expected);
}

#[test]
fn empty_schedule() {
    let mut schedule = Schedule::new();
    assert!(schedule.is_empty());
    assert_eq!(schedule.len(), 0);
    assert!(schedule.blocks().is_empty());
    assert!(schedule.duties().is_empty());
    assert_eq!(schedule.summary().total_rows, 0);
    assert!(schedule.metadata.source_file.is_none());
}
