use schedule_parser::{Deadhead, DeadheadInferenceResult, DeadheadType};

#[test]
fn test_pull_out_creation() {
    let dh = Deadhead::pull_out("DEPOT1", "STOP_A")
        .with_block("B1")
        .with_times(21600, 22200);

    assert_eq!(dh.deadhead_type, DeadheadType::PullOut);
    assert_eq!(dh.from_location, "DEPOT1");
    assert_eq!(dh.to_location, "STOP_A");
    assert_eq!(dh.duration_seconds(), Some(600)); // 10 minutes
    assert!(dh.is_depot_movement());
}

#[test]
fn test_interlining() {
    let dh = Deadhead::interlining("STOP_B", "STOP_C").with_trips(Some("TRIP1"), Some("TRIP2"));

    assert_eq!(dh.deadhead_type, DeadheadType::Interlining);
    assert!(!dh.is_depot_movement());
    assert_eq!(dh.from_trip_id, Some("TRIP1".to_string()));
    assert_eq!(dh.to_trip_id, Some("TRIP2".to_string()));
}

#[test]
fn pull_in_creation_and_builders() {
    let dh = Deadhead::pull_in("STOP_Z", "DEPOT1")
        .with_coordinates(407_128_000, -740_060_000, 407_580_000, -739_855_000)
        .inferred();
    assert_eq!(dh.deadhead_type, DeadheadType::PullIn);
    assert_eq!(dh.from_location, "STOP_Z");
    assert_eq!(dh.to_location, "DEPOT1");
    assert!(dh.is_depot_movement());
    assert!(dh.is_inferred);
    assert_eq!(dh.from_lat, Some(407_128_000));
    assert_eq!(dh.from_lon, Some(-740_060_000));
    assert_eq!(dh.to_lat, Some(407_580_000));
    assert_eq!(dh.to_lon, Some(-739_855_000));
    assert_eq!(dh.block_id, None);
    assert_eq!(dh.duration_seconds(), None);
    assert_eq!(dh.distance_meters, None);
    let copy = dh.clone();
    assert_eq!(format!("{:?}", copy), format!("{:?}", dh));
}

#[test]
fn a_fresh_deadhead_is_not_inferred() {
    let dh = Deadhead::pull_out("D", "A");
    assert!(!dh.is_inferred);
    assert_eq!(dh.start_time_seconds, None);
    assert_eq!(dh.from_trip_id, None);
    let dh = dh.with_trips(None, Some("T2"));
    assert_eq!(dh.from_trip_id, None);
    assert_eq!(dh.to_trip_id, Some("T2".to_string()));
}

#[test]
fn deadhead_duration_needs_ordered_times() {
    assert_eq!(Deadhead::pull_out("D", "A").with_times(100, 100).duration_seconds(), Some(0));
    assert_eq!(Deadhead::pull_out("D", "A").with_times(100, 99).duration_seconds(), None);
}

#[test]
fn result_lists_stay_apart_and_are_counted_together() {
    let mut result = DeadheadInferenceResult::default();
    assert_eq!(result.total_count(), 0);
    result.pull_outs.push(Deadhead::pull_out("D", "A"));
    result.pull_ins.push(Deadhead::pull_in("C", "D"));
    result.interlinings.push(Deadhead::interlining("A", "B"));
    result.interlinings.push(Deadhead::interlining("B", "C"));
    result.incomplete_blocks.push("B9".to_string());
    assert_eq!(result.total_count(), 4);
    let all = result.all_deadheads();
    let kinds: Vec<DeadheadType> = all.iter().map(|d| d.deadhead_type).collect();
    assert_eq!(
        kinds,
        vec![
            DeadheadType::PullOut,
            DeadheadType::PullIn,
            DeadheadType::Interlining,
            DeadheadType::Interlining
        ]
    );
    assert_eq!(all[3].from_location, "B");
}
