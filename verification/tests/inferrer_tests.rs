use schedule_parser::deadhead::{InferenceError, StopCoordinate, TravelEstimate};
use schedule_parser::{
    Block, DeadheadInferrer, DeadheadType, InferenceConfig, RowType, Schedule, ScheduleRow,
};

fn trip_row(
    trip_id: &str,
    block: &str,
    start_place: &str,
    end_place: &str,
    start: &str,
    end: &str,
) -> ScheduleRow {
    ScheduleRow {
        trip_id: Some(trip_id.to_string()),
        block: Some(block.to_string()),
        start_place: Some(start_place.to_string()),
        end_place: Some(end_place.to_string()),
        start_time: Some(start.to_string()),
        end_time: Some(end.to_string()),
        row_type: RowType::Revenue,
        ..Default::default()
    }
}

#[test]
fn test_infer_pull_out_and_in() {
    let config = InferenceConfig::new().with_default_depot("DEPOT");
    let inferrer = DeadheadInferrer::new(config);

    let mut schedule = Schedule::from_rows(vec![
        trip_row("T1", "B1", "STOP_A", "STOP_B", "08:00:00", "09:00:00"),
        trip_row("T2", "B1", "STOP_B", "STOP_C", "09:15:00", "10:00:00"),
    ]);

    let result = inferrer.infer(&mut schedule);

    assert_eq!(result.pull_outs.len(), 1);
    assert_eq!(result.pull_ins.len(), 1);

    let pull_out = &result.pull_outs[0];
    assert_eq!(pull_out.from_location, "DEPOT");
    assert_eq!(pull_out.to_location, "STOP_A");
    assert!(pull_out.is_inferred);

    let pull_in = &result.pull_ins[0];
    assert_eq!(pull_in.from_location, "STOP_C");
    assert_eq!(pull_in.to_location, "DEPOT");
}

#[test]
fn test_infer_interlining() {
    let config = InferenceConfig::new().with_default_depot("DEPOT");
    let inferrer = DeadheadInferrer::new(config);

    let mut schedule = Schedule::from_rows(vec![
        trip_row("T1", "B1", "A", "B", "08:00:00", "09:00:00"),
        // Location discontinuity: B -> C
        trip_row("T2", "B1", "C", "D", "09:15:00", "10:00:00"),
    ]);

    let result = inferrer.infer(&mut schedule);

    assert_eq!(result.interlinings.len(), 1);

    let interlining = &result.interlinings[0];
    assert_eq!(interlining.from_location, "B");
    assert_eq!(interlining.to_location, "C");
    assert_eq!(interlining.from_trip_id, Some("T1".to_string()));
    assert_eq!(interlining.to_trip_id, Some("T2".to_string()));
}

#[test]
fn test_no_interlining_when_continuous() {
    let config = InferenceConfig::new().with_default_depot("DEPOT");
    let inferrer = DeadheadInferrer::new(config);

    let mut schedule = Schedule::from_rows(vec![
        trip_row("T1", "B1", "A", "B", "08:00:00", "09:00:00"),
        trip_row("T2", "B1", "B", "C", "09:15:00", "10:00:00"), // Continuous
    ]);

    let result = inferrer.infer(&mut schedule);

    assert_eq!(result.interlinings.len(), 0);
}

#[test]
fn test_incomplete_block_no_depot() {
    let config = InferenceConfig::new(); // No default depot
    let inferrer = DeadheadInferrer::new(config);

    let mut schedule =
        Schedule::from_rows(vec![trip_row("T1", "B1", "A", "B", "08:00:00", "09:00:00")]);

    let result = inferrer.infer(&mut schedule);

    assert!(result.incomplete_blocks.contains(&"B1".to_string()));
}

#[test]
fn continuous_block_gets_one_pull_out_one_pull_in_and_no_interlining() {
    let inferrer = DeadheadInferrer::new(InferenceConfig::new().with_default_depot("DEPOT"));
    let mut schedule = Schedule::from_rows(vec![
        trip_row("T1", "B1", "STOP_A", "STOP_B", "08:00", "09:00"),
        trip_row("T2", "B1", "STOP_B", "STOP_C", "09:15", "10:00"),
    ]);
    let result = inferrer.infer(&mut schedule);
    assert_eq!(result.pull_outs.len(), 1);
    assert_eq!(result.pull_ins.len(), 1);
    assert_eq!(result.interlinings.len(), 0);
    assert!(result.incomplete_blocks.is_empty());
    let out = &result.pull_outs[0];
    assert_eq!(out.deadhead_type, DeadheadType::PullOut);
    assert_eq!((out.from_location.as_str(), out.to_location.as_str()), ("DEPOT", "STOP_A"));
    assert_eq!(out.block_id, Some("B1".to_string()));
    assert_eq!(out.start_time_seconds, Some(28800 - 900));
    assert_eq!(out.end_time_seconds, Some(28800));
    assert_eq!(out.to_lat, None);
    let back = &result.pull_ins[0];
    assert_eq!(back.deadhead_type, DeadheadType::PullIn);
    assert_eq!((back.from_location.as_str(), back.to_location.as_str()), ("STOP_C", "DEPOT"));
    assert_eq!(back.start_time_seconds, Some(36000));
    assert_eq!(back.end_time_seconds, Some(36000 + 900));
    assert!(back.is_inferred);
}

#[test]
fn discontinuity_with_a_gap_gets_one_interlining() {
    let inferrer = DeadheadInferrer::new(InferenceConfig::new().with_default_depot("DEPOT"));
    let mut schedule = Schedule::from_rows(vec![
        trip_row("T1", "B1", "STOP_A", "STOP_B", "08:00", "09:00"),
        trip_row("T2", "B1", "STOP_C", "STOP_D", "09:15", "10:00"),
    ]);
    let result = inferrer.infer(&mut schedule);
    assert_eq!(result.interlinings.len(), 1);
    let d = &result.interlinings[0];
    assert_eq!(d.deadhead_type, DeadheadType::Interlining);
    assert_eq!((d.from_location.as_str(), d.to_location.as_str()), ("STOP_B", "STOP_C"));
    assert_eq!(d.from_trip_id, Some("T1".to_string()));
    assert_eq!(d.to_trip_id, Some("T2".to_string()));
    assert_eq!(d.start_time_seconds, Some(32400));
    assert_eq!(d.end_time_seconds, Some(33300));
    assert_eq!(d.block_id, Some("B1".to_string()));
    assert!(d.is_inferred);
}

#[test]
fn the_gap_must_exceed_the_minimum() {
    let mut config = InferenceConfig::new().with_default_depot("DEPOT");
    config.min_gap_seconds = 900;
    let inferrer = DeadheadInferrer::new(config);
    let mut schedule = Schedule::from_rows(vec![
        trip_row("T1", "B1", "A", "B", "08:00", "09:00"),
        trip_row("T2", "B1", "C", "D", "09:15", "10:00"),
    ]);
    assert_eq!(inferrer.infer(&mut schedule).interlinings.len(), 0);
    let mut config = InferenceConfig::new().with_default_depot("DEPOT");
    config.min_gap_seconds = 899;
    let inferrer = DeadheadInferrer::new(config);
    assert_eq!(inferrer.infer(&mut schedule).interlinings.len(), 1);
}

#[test]
fn unknown_times_count_as_needing_a_deadhead() {
    let inferrer = DeadheadInferrer::new(InferenceConfig::new().with_default_depot("DEPOT"));
    let mut schedule = Schedule::from_rows(vec![
        trip_row("T1", "B1", "A", "B", "08:00", "??"),
        trip_row("T2", "B1", "C", "D", "09:15", "10:00"),
    ]);
    let result = inferrer.infer(&mut schedule);
    assert_eq!(result.interlinings.len(), 1);
    assert_eq!(result.interlinings[0].start_time_seconds, None);
    assert_eq!(result.interlinings[0].end_time_seconds, None);
}

#[test]
fn interlining_can_be_switched_off() {
    let mut config = InferenceConfig::new().with_default_depot("DEPOT");
    config.infer_interlining = false;
    let inferrer = DeadheadInferrer::new(config);
    let mut schedule = Schedule::from_rows(vec![
        trip_row("T1", "B1", "A", "B", "08:00", "09:00"),
        trip_row("T2", "B1", "C", "D", "09:15", "10:00"),
    ]);
    let result = inferrer.infer(&mut schedule);
    assert_eq!(result.interlinings.len(), 0);
    assert_eq!(result.pull_outs.len(), 1);
}

#[test]
fn interlining_looks_at_revenue_trips_only() {
    let inferrer = DeadheadInferrer::new(InferenceConfig::new().with_default_depot("DEPOT"));
    let mut layover = trip_row("", "B1", "X", "Y", "09:00", "09:05");
    layover.trip_id = None;
    layover.row_type = RowType::Layover;
    let mut schedule = Schedule::from_rows(vec![
        trip_row("T1", "B1", "A", "B", "08:00", "09:00"),
        layover,
        trip_row("T2", "B1", "C", "D", "09:15", "10:00"),
    ]);
    let result = inferrer.infer(&mut schedule);
    assert_eq!(result.interlinings.len(), 1);
    assert_eq!(result.interlinings[0].from_location, "B");
    assert_eq!(result.interlinings[0].to_location, "C");
}

#[test]
fn existing_pull_out_and_pull_in_are_kept() {
    let inferrer = DeadheadInferrer::new(InferenceConfig::new().with_default_depot("DEPOT"));
    let mut out = trip_row("", "B1", "DEPOT", "A", "07:30", "08:00");
    out.trip_id = None;
    out.row_type = RowType::PullOut;
    let mut schedule = Schedule::from_rows(vec![
        out,
        trip_row("T1", "B1", "A", "B", "08:00", "09:00"),
    ]);
    let result = inferrer.infer(&mut schedule);
    assert_eq!(result.pull_outs.len(), 0);
    assert_eq!(result.pull_ins.len(), 1);
    let mut back = trip_row("", "B1", "B", "DEPOT", "09:00", "09:30");
    back.trip_id = None;
    back.row_type = RowType::PullIn;
    schedule.add_row(back);
    let result = inferrer.infer(&mut schedule);
    assert_eq!(result.pull_outs.len(), 0);
    assert_eq!(result.pull_ins.len(), 0);
    assert!(result.incomplete_blocks.is_empty());
}

#[test]
fn a_block_without_depot_does_not_stop_the_others() {
    let inferrer = DeadheadInferrer::new(InferenceConfig::new());
    let mut with_depot = trip_row("T2", "B2", "C", "D", "09:15", "10:00");
    with_depot.depot = Some("NORTH".to_string());
    let mut schedule = Schedule::from_rows(vec![
        trip_row("T1", "B1", "A", "B", "08:00", "09:00"),
        trip_row("T1b", "B1", "X", "Y", "10:00", "11:00"),
        with_depot,
        trip_row("T3", "B3", "E", "F", "08:00", "09:00"),
    ]);
    let result = inferrer.infer(&mut schedule);
    assert_eq!(result.incomplete_blocks, vec!["B1".to_string(), "B3".to_string()]);
    assert_eq!(result.pull_outs.len(), 1);
    assert_eq!(result.pull_ins.len(), 1);
    assert_eq!(result.interlinings.len(), 0);
    assert_eq!(result.pull_outs[0].block_id, Some("B2".to_string()));
    assert_eq!(result.pull_outs[0].from_location, "NORTH");
    assert_eq!(result.total_count(), 2);
}

#[test]
fn the_blocks_own_depot_comes_before_the_default() {
    let inferrer = DeadheadInferrer::new(InferenceConfig::new().with_default_depot("DEFAULT"));
    let mut row = trip_row("T1", "B1", "A", "B", "08:00", "09:00");
    row.depot = Some("OWN".to_string());
    let mut schedule = Schedule::from_rows(vec![
        row,
        trip_row("T2", "B2", "A", "B", "08:00", "09:00"),
    ]);
    let result = inferrer.infer(&mut schedule);
    assert_eq!(result.pull_outs[0].from_location, "OWN");
    assert_eq!(result.pull_outs[1].from_location, "DEFAULT");
}

#[test]
fn estimates_and_coordinates_are_used() {
    let stops = vec![
        StopCoordinate { stop_id: "A".to_string(), lat: 1, lon: 2 },
        StopCoordinate { stop_id: "B".to_string(), lat: 3, lon: 4 },
        StopCoordinate { stop_id: "A".to_string(), lat: 5, lon: 6 },
        StopCoordinate { stop_id: "DEPOT".to_string(), lat: 7, lon: 8 },
    ];
    let estimates = vec![
        TravelEstimate { from: "DEPOT".to_string(), to: "A".to_string(), seconds: 100 },
        TravelEstimate { from: "B".to_string(), to: "DEPOT".to_string(), seconds: 200 },
        TravelEstimate { from: "DEPOT".to_string(), to: "A".to_string(), seconds: 300 },
    ];
    let inferrer =
        DeadheadInferrer::with_gtfs(InferenceConfig::new().with_default_depot("DEPOT"), stops)
            .with_travel_estimates(estimates);
    assert_eq!(inferrer.coordinates("A"), Some((5, 6)));
    assert_eq!(inferrer.coordinates("Z"), None);
    assert_eq!(inferrer.estimate_duration("DEPOT", "A"), 300);
    assert_eq!(inferrer.estimate_duration("A", "DEPOT"), 900);
    assert_eq!(inferrer.estimate_duration("B", "DEPOT"), 200);
    let mut schedule = Schedule::from_rows(vec![trip_row("T1", "B1", "A", "B", "08:00", "09:00")]);
    let result = inferrer.infer(&mut schedule);
    let out = &result.pull_outs[0];
    assert_eq!(out.start_time_seconds, Some(28800 - 300));
    assert_eq!((out.to_lat, out.to_lon), (Some(5), Some(6)));
    assert_eq!((out.from_lat, out.from_lon), (None, None));
    let back = &result.pull_ins[0];
    assert_eq!(back.end_time_seconds, Some(32400 + 200));
    assert_eq!((back.from_lat, back.from_lon), (Some(3), Some(4)));
}

#[test]
fn an_estimate_counts_only_where_both_places_have_coordinates() {
    let stops = vec![StopCoordinate { stop_id: "A".to_string(), lat: 1, lon: 2 }];
    let estimates =
        vec![TravelEstimate { from: "DEPOT".to_string(), to: "A".to_string(), seconds: 100 }];
    let inferrer =
        DeadheadInferrer::with_gtfs(InferenceConfig::new().with_default_depot("DEPOT"), stops)
            .with_travel_estimates(estimates);
    assert_eq!(inferrer.estimate_duration("DEPOT", "A"), 900);
    let mut schedule = Schedule::from_rows(vec![trip_row("T1", "B1", "A", "B", "08:00", "09:00")]);
    let result = inferrer.infer(&mut schedule);
    assert_eq!(result.pull_outs[0].start_time_seconds, Some(28800 - 900));
    assert_eq!(result.pull_outs[0].to_lat, Some(1));
}

#[test]
fn a_pull_out_never_starts_before_zero() {
    let inferrer = DeadheadInferrer::new(InferenceConfig::new().with_default_depot("DEPOT"));
    let mut schedule = Schedule::from_rows(vec![trip_row("T1", "B1", "A", "B", "00:10", "4294967000")]);
    let result = inferrer.infer(&mut schedule);
    assert_eq!(result.pull_outs[0].start_time_seconds, Some(0));
    assert_eq!(result.pull_outs[0].end_time_seconds, Some(600));
    assert_eq!(result.pull_ins[0].start_time_seconds, Some(4294967000));
    assert_eq!(result.pull_ins[0].end_time_seconds, Some(4294967295));
}

#[test]
fn deadheads_without_known_times_have_none() {
    let inferrer = DeadheadInferrer::new(InferenceConfig::new().with_default_depot("DEPOT"));
    let mut schedule = Schedule::from_rows(vec![trip_row("T1", "B1", "A", "B", "?", "?")]);
    let result = inferrer.infer(&mut schedule);
    assert_eq!(result.pull_outs[0].start_time_seconds, None);
    assert_eq!(result.pull_outs[0].end_time_seconds, None);
    assert_eq!(result.pull_ins[0].start_time_seconds, None);
}

#[test]
fn a_block_without_revenue_trips_gets_nothing() {
    let inferrer = DeadheadInferrer::new(InferenceConfig::new().with_default_depot("DEPOT"));
    let mut row = trip_row("", "B1", "A", "B", "08:00", "09:00");
    row.trip_id = None;
    let mut schedule = Schedule::from_rows(vec![row]);
    let result = inferrer.infer(&mut schedule);
    assert_eq!(result.total_count(), 0);
    assert!(result.incomplete_blocks.is_empty());
}

#[test]
fn inference_for_one_block_names_its_errors() {
    let inferrer = DeadheadInferrer::new(InferenceConfig::new());
    let mut schedule = Schedule::from_rows(vec![trip_row("T1", "B1", "A", "B", "08:00", "09:00")]);
    assert_eq!(
        inferrer.infer_block_deadheads(&mut schedule, "B7").unwrap_err(),
        InferenceError::BlockNotFound
    );
    assert_eq!(
        inferrer.infer_block_deadheads(&mut schedule, "B1").unwrap_err(),
        InferenceError::NoDepot
    );
    let mut block = Block::new("B1".to_string());
    block.add_row(trip_row("T1", "B1", "A", "B", "08:00", "09:00"));
    assert_eq!(inferrer.infer_for_block(&block).unwrap_err(), InferenceError::NoDepot);
    block.depot = Some("D".to_string());
    let found = inferrer.infer_for_block(&block).unwrap();
    assert_eq!(found.pull_outs.len(), 1);
    assert_eq!(found.pull_outs[0].from_location, "D");
}

#[test]
fn inference_config_defaults_and_depots() {
    let config = InferenceConfig::new();
    assert_eq!(config.default_depot, None);
    assert_eq!(config.average_speed_mm_per_s, 8330);
    assert_eq!(config.min_gap_seconds, 60);
    assert!(config.infer_interlining);
    let config = config.add_depot("STOP_1", "NORTH").add_depot("STOP_2", "SOUTH").add_depot("STOP_1", "EAST");
    assert_eq!(config.depot_for("STOP_1"), Some(&"EAST".to_string()));
    assert_eq!(config.depot_for("STOP_2"), Some(&"SOUTH".to_string()));
    assert_eq!(config.depot_for("STOP_3"), None);
}
