use schedule_parser::coordinate::parse_coordinate;
use schedule_parser::formats::generic_csv::coordinate_string;
use schedule_parser::reader::{classify_row_type, is_blank, parse_row_type};
use schedule_parser::text::str_contains;
use schedule_parser::{ColumnMapping, ReadOptions, RowType, ScheduleReader};

#[test]
fn test_read_simple_csv() {
    let csv = r#"run_number,block,start_place,end_place,start_time,end_time,trip_id
R1,B1,STOP_A,STOP_B,08:00:00,09:00:00,TRIP1
R1,B1,STOP_B,STOP_C,09:15:00,10:00:00,TRIP2
"#;

    let schedule = ScheduleReader::read_str(csv, ReadOptions::new()).unwrap();
    assert_eq!(schedule.len(), 2);
    assert_eq!(schedule.rows[0].trip_id, Some("TRIP1".to_string()));
    assert_eq!(schedule.rows[1].start_place, Some("STOP_B".to_string()));
}

#[test]
fn test_auto_detect_columns() {
    let csv = r#"run,blk,from_stop,to_stop,departure_time,arrival_time,gtfs_trip_id
R1,B1,STOP_A,STOP_B,08:00:00,09:00:00,TRIP1
"#;

    let schedule = ScheduleReader::read_str(csv, ReadOptions::new()).unwrap();
    assert_eq!(schedule.len(), 1);
    assert_eq!(schedule.rows[0].block, Some("B1".to_string()));
    assert_eq!(schedule.rows[0].trip_id, Some("TRIP1".to_string()));
}

#[test]
fn test_row_type_parsing() {
    let csv = r#"run_number,block,start_time,end_time,trip_id,row_type
R1,B1,06:00:00,06:30:00,,pull_out
R1,B1,06:30:00,08:00:00,TRIP1,revenue
R1,B1,08:00:00,08:15:00,,break
R1,B1,08:15:00,09:30:00,TRIP2,revenue
R1,B1,09:30:00,10:00:00,,pull_in
"#;

    let schedule = ScheduleReader::read_str(csv, ReadOptions::new()).unwrap();
    assert_eq!(schedule.len(), 5);
    assert_eq!(schedule.rows[0].row_type, RowType::PullOut);
    assert_eq!(schedule.rows[1].row_type, RowType::Revenue);
    assert_eq!(schedule.rows[2].row_type, RowType::Break);
    assert_eq!(schedule.rows[4].row_type, RowType::PullIn);
}

#[test]
fn test_custom_mapping() {
    let csv = r#"driver,bus_block,origin,destination,depart,arrive,trip
D1,V1,A,B,08:00:00,09:00:00,T1
"#;

    let mut mapping = ColumnMapping::new();
    mapping.add("run_number", "driver");
    mapping.add("block", "bus_block");
    mapping.add("start_place", "origin");
    mapping.add("end_place", "destination");
    mapping.add("start_time", "depart");
    mapping.add("end_time", "arrive");
    mapping.add("trip_id", "trip");

    let options = ReadOptions::new().with_mapping(mapping);
    let schedule = ScheduleReader::read_str(csv, options).unwrap();

    assert_eq!(schedule.rows[0].run_number, Some("D1".to_string()));
    assert_eq!(schedule.rows[0].block, Some("V1".to_string()));
    assert_eq!(schedule.rows[0].trip_id, Some("T1".to_string()));
}

#[test]
fn test_skip_empty_rows() {
    let csv = r#"run_number,block,start_time,trip_id
R1,B1,08:00:00,T1

R1,B1,09:00:00,T2
"#;

    let schedule = ScheduleReader::read_str(csv, ReadOptions::new()).unwrap();
    assert_eq!(schedule.len(), 2); // Empty row skipped
}

#[test]
fn rows_of_empty_fields_are_skipped_or_kept() {
    let csv = "run_number,block\nR1,B1\n , \nR2,B2\n";
    let schedule = ScheduleReader::read_str(csv, ReadOptions::new()).unwrap();
    assert_eq!(schedule.len(), 2);
    let mut options = ReadOptions::new();
    options.skip_empty_rows = false;
    let schedule = ScheduleReader::read_str(csv, options).unwrap();
    assert_eq!(schedule.len(), 3);
    assert_eq!(schedule.rows[1].run_number, None);
    assert_eq!(schedule.rows[1].row_type, RowType::Revenue);
    assert_eq!(schedule.rows[2].block, Some("B2".to_string()));
    assert!(is_blank(&vec!["".to_string(), " \t".to_string()]));
    assert!(is_blank(&vec![]));
    assert!(!is_blank(&vec!["".to_string(), "x".to_string()]));
}

#[test]
fn fields_are_trimmed_and_coordinates_read() {
    let csv = "trip_id;start_lat;start_lon;end_lat;end_lon;route_shape_id;duty_id;shift_id;route_short_name;headsign;depot;vehicle_class;vehicle_type\n  T1 ;40.7128; -74.006 ;north;;S1;D1;SH1;10;Centre;DEP;VC;VT\n";
    let mut options = ReadOptions::new().with_delimiter(b';');
    options.auto_detect_columns = false;
    let schedule = ScheduleReader::read_bytes(csv.as_bytes(), options).unwrap();
    let row = &schedule.rows[0];
    assert_eq!(row.trip_id, Some("T1".to_string()));
    assert_eq!(row.start_lat, Some(407_128_000));
    assert_eq!(row.start_lon, Some(-740_060_000));
    assert_eq!(row.end_lat, None);
    assert_eq!(row.end_lon, None);
    assert_eq!(row.route_shape_id, Some("S1".to_string()));
    assert_eq!(row.duty_id, Some("D1".to_string()));
    assert_eq!(row.shift_id, Some("SH1".to_string()));
    assert_eq!(row.route_short_name, Some("10".to_string()));
    assert_eq!(row.headsign, Some("Centre".to_string()));
    assert_eq!(row.depot, Some("DEP".to_string()));
    assert_eq!(row.vehicle_class, Some("VC".to_string()));
    assert_eq!(row.vehicle_type, Some("VT".to_string()));
    assert!(schedule.blocks.is_none());
    assert!(schedule.metadata.column_mapping.is_some());
}

#[test]
fn detection_takes_a_header_that_merely_holds_a_name() {
    let csv = "route_shape_id,route_short_name,vehicle_class,vehicle_type\nS1,10,VC,VT\n";
    let schedule = ScheduleReader::read_str(csv, ReadOptions::new()).unwrap();
    let row = &schedule.rows[0];
    assert_eq!(row.route_shape_id, Some("S1".to_string()));
    assert_eq!(row.route_short_name, Some("S1".to_string()));
    assert_eq!(row.vehicle_class, Some("VC".to_string()));
    assert_eq!(row.vehicle_type, Some("VC".to_string()));
}

#[test]
fn the_first_header_that_holds_a_name_is_taken() {
    let headers: Vec<String> =
        ["Run", "start_place", "START_TIME", "Destination", "notes"].iter().map(|s| s.to_string()).collect();
    let mapping = ColumnMapping::auto_detect(&headers);
    assert_eq!(mapping.get_column("run_number"), Some("Run"));
    assert_eq!(mapping.get_column("start_place"), Some("start_place"));
    assert_eq!(mapping.get_column("start_time"), Some("start_place"));
    assert_eq!(mapping.get_column("end_place"), Some("Destination"));
    assert_eq!(mapping.get_column("headsign"), Some("Destination"));
    assert_eq!(mapping.get_column("block"), None);
    assert_eq!(mapping.get_column("notes"), None);
    let none = ColumnMapping::auto_detect(&vec![]);
    assert_eq!(none.get_column("run_number"), None);
}

#[test]
fn without_headers_or_detection_the_default_mapping_is_used() {
    let csv = "block,trip_id\nB1,T1\n";
    let mut options = ReadOptions::new();
    options.has_headers = false;
    let schedule = ScheduleReader::read_str(csv, options).unwrap();
    assert_eq!(schedule.len(), 2);
    assert_eq!(schedule.rows[0].block, None);
    let mut options = ReadOptions::new();
    options.auto_detect_columns = false;
    let schedule = ScheduleReader::read_str("blk,trip_id\nB1,T1\n", options).unwrap();
    assert_eq!(schedule.rows[0].block, None);
    assert_eq!(schedule.rows[0].trip_id, Some("T1".to_string()));
    let used = schedule.metadata.column_mapping.unwrap();
    assert_eq!(used.len(), 20);
    assert!(used.iter().all(|(field, column)| field == column));
}

#[test]
fn a_header_that_occurs_twice_counts_where_it_stands_last() {
    let csv = "block,block\nB1,B2\n";
    let schedule = ScheduleReader::read_str(csv, ReadOptions::new()).unwrap();
    assert_eq!(schedule.rows[0].block, Some("B2".to_string()));
}

#[test]
fn text_that_is_no_csv_is_an_error() {
    let csv = "a,b\n1,2,3\n";
    assert!(ScheduleReader::read_str(csv, ReadOptions::new()).is_err());
    let bytes: &[u8] = &[b'a', b'\n', 0xff, b'\n'];
    assert!(ScheduleReader::read_bytes(bytes, ReadOptions::new()).is_err());
    let bytes: &[u8] = &[0xff, b'\n', b'a', b'\n'];
    assert!(ScheduleReader::read_bytes(bytes, ReadOptions::new()).is_err());
    assert_eq!(ScheduleReader::read_str("", ReadOptions::new()).unwrap().len(), 0);
}

#[test]
fn column_mapping_basics() {
    let mut mapping = ColumnMapping::new();
    assert_eq!(mapping.get_column("block"), None);
    mapping.add("block", "Blk");
    mapping.add("trip_id", "Trip");
    mapping.add("block", "Vehicle");
    assert_eq!(mapping.get_column("block"), Some("Vehicle"));
    assert_eq!(mapping.get_column("trip_id"), Some("Trip"));
    let from = ColumnMapping::from_map(vec![("depot".to_string(), "Garage".to_string())]);
    assert_eq!(from.get_column("depot"), Some("Garage"));
    assert_eq!(from.get_column("block"), None);
    let default = ColumnMapping::default_mapping();
    for field in [
        "run_number", "block", "start_place", "end_place", "start_time", "end_time", "trip_id",
        "depot", "vehicle_class", "vehicle_type", "start_lat", "start_lon", "end_lat", "end_lon",
        "route_shape_id", "row_type", "duty_id", "shift_id", "route_short_name", "headsign",
    ] {
        assert_eq!(default.get_column(field), Some(field));
    }
    assert_eq!(default.get_column("notes"), None);
    let options = ReadOptions::new();
    assert!(options.auto_detect_columns && options.has_headers && options.skip_empty_rows);
    assert_eq!(options.delimiter, None);
    let plain = ReadOptions::default();
    assert!(!plain.auto_detect_columns && !plain.has_headers && !plain.skip_empty_rows);
}

#[test]
fn row_types_are_read_whatever_their_case() {
    let cases = [
        ("revenue", RowType::Revenue), ("Trip", RowType::Revenue), ("SERVICE", RowType::Revenue),
        ("pull_out", RowType::PullOut), ("PullOut", RowType::PullOut), ("pull-out", RowType::PullOut),
        ("PO", RowType::PullOut), ("pull_in", RowType::PullIn), ("pullin", RowType::PullIn),
        ("Pull-In", RowType::PullIn), ("pi", RowType::PullIn), ("deadhead", RowType::Deadhead),
        ("DH", RowType::Deadhead), ("dead", RowType::Deadhead), ("non_revenue", RowType::Deadhead),
        ("break", RowType::Break), ("brk", RowType::Break), ("Meal", RowType::Break),
        ("relief", RowType::Relief), ("changeover", RowType::Relief), ("swap", RowType::Relief),
        ("layover", RowType::Layover), ("wait", RowType::Layover), ("Dwell", RowType::Layover),
        ("", RowType::Revenue), ("charter", RowType::Revenue), (" break", RowType::Revenue),
    ];
    for (text, kind) in cases {
        assert_eq!(parse_row_type(text), kind, "{}", text);
    }
    assert_eq!(classify_row_type("BREAK"), RowType::Revenue);
    assert_eq!(classify_row_type("break"), RowType::Break);
}

#[test]
fn coordinates_are_read_from_degrees() {
    assert_eq!(parse_coordinate("40.7128"), Some(407_128_000));
    assert_eq!(parse_coordinate("-74.0060"), Some(-740_060_000));
    assert_eq!(parse_coordinate("+1"), Some(10_000_000));
    assert_eq!(parse_coordinate("0"), Some(0));
    assert_eq!(parse_coordinate("-0"), Some(0));
    assert_eq!(parse_coordinate(".5"), Some(5_000_000));
    assert_eq!(parse_coordinate("5."), Some(50_000_000));
    assert_eq!(parse_coordinate("0.00000019"), Some(1));
    assert_eq!(parse_coordinate("000012.5"), Some(125_000_000));
    assert_eq!(parse_coordinate("214.7483647"), Some(i32::MAX));
    assert_eq!(parse_coordinate("214.7483648"), None);
    assert_eq!(parse_coordinate("-214.7483648"), Some(i32::MIN));
    assert_eq!(parse_coordinate("-214.7483649"), None);
    assert_eq!(parse_coordinate("215"), None);
    assert_eq!(parse_coordinate("99999999999999999999999"), None);
    for bad in ["", "+", "-", ".", "-.", "1e3", "1.2.3", "north", "1,5", " 1", "1 ", "--1", "1-", "４０", "nan", "inf"] {
        assert_eq!(parse_coordinate(bad), None, "{:?}", bad);
    }
}

#[test]
fn written_coordinates_read_back_as_they_were() {
    for value in [0, 1, -1, 10_000_000, 407_128_000, -740_060_000, 1_000_010, i32::MAX, i32::MIN] {
        assert_eq!(parse_coordinate(&coordinate_string(value)), Some(value));
    }
}

#[test]
fn texts_are_searched_by_their_bytes() {
    assert!(str_contains("departure_time", "time"));
    assert!(str_contains("time", "time"));
    assert!(str_contains("time", ""));
    assert!(str_contains("", ""));
    assert!(!str_contains("", "a"));
    assert!(!str_contains("tim", "time"));
    assert!(!str_contains("ti me", "time"));
    assert!(str_contains("aab", "ab"));
    assert!(str_contains("héllo", "llo"));
    assert!(!str_contains("héllo", "hel"));
}
