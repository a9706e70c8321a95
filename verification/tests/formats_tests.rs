use schedule_parser::formats::csv_text::{append_written, decode_written, write_csv};
use schedule_parser::formats::generic_csv::coordinate_string;
use schedule_parser::formats::{ColumnConfig, ExportError, TimeFormat};
use schedule_parser::{CsvExporter, ExportConfig, ExportPreset, RowType, Schedule, ScheduleRow};

#[test]
fn test_preset_to_config() {
    let config = ExportPreset::Minimal.to_config();
    assert_eq!(config.columns.len(), 5);

    let config = ExportPreset::Extended.to_config();
    assert!(config.columns.len() > 15);
}

#[test]
fn test_optibus_like_column_names() {
    let config = ExportPreset::OptibusLike.to_config();

    let headers: Vec<&str> = config.columns.iter().map(|c| c.header.as_str()).collect();
    assert!(headers.contains(&"Run"));
    assert!(headers.contains(&"Block"));
    assert!(headers.contains(&"TripID"));
}

#[test]
fn test_hastus_like_column_names() {
    let config = ExportPreset::HastusLike.to_config();

    let headers: Vec<&str> = config.columns.iter().map(|c| c.header.as_str()).collect();
    assert!(headers.contains(&"DUTY_NO"));
    assert!(headers.contains(&"BLOCK_NO"));
    assert!(headers.contains(&"TRIP_NO"));
}

#[test]
fn test_gtfs_block_config() {
    let config = ExportPreset::GtfsBlock.to_config();

    let headers: Vec<&str> = config.columns.iter().map(|c| c.header.as_str()).collect();
    assert!(headers.contains(&"block_id"));
    assert!(headers.contains(&"trip_id"));
}

fn export_row() -> ScheduleRow {
    ScheduleRow {
        run_number: Some("R1".to_string()),
        block: Some("B1".to_string()),
        start_place: Some("STOP_A".to_string()),
        end_place: Some("STOP_B".to_string()),
        start_time: Some("08:00:00".to_string()),
        end_time: Some("09:00:00".to_string()),
        trip_id: Some("TRIP1".to_string()),
        row_type: RowType::Revenue,
        ..Default::default()
    }
}

#[test]
fn test_export_default() {
    let schedule = Schedule::from_rows(vec![export_row()]);
    let exporter = CsvExporter::default_config();

    let result = exporter.export_to_string(&schedule).unwrap();

    assert!(result.contains("run_number"));
    assert!(result.contains("R1"));
    assert!(result.contains("TRIP1"));
}

#[test]
fn test_export_custom_columns() {
    let schedule = Schedule::from_rows(vec![export_row()]);
    let config = ExportConfig::with_columns(vec!["run_number", "block", "trip_id"]);
    let exporter = CsvExporter::new(config);

    let result = exporter.export_to_string(&schedule).unwrap();

    assert!(result.contains("run_number,block,trip_id"));
    assert!(result.contains("R1,B1,TRIP1"));
    assert!(!result.contains("start_place"));
}

#[test]
fn test_export_column_mapping() {
    let schedule = Schedule::from_rows(vec![export_row()]);
    let config = ExportConfig::with_column_mapping(vec![
        ("run_number", "driver"),
        ("block", "vehicle_block"),
    ]);
    let exporter = CsvExporter::new(config);

    let result = exporter.export_to_string(&schedule).unwrap();

    assert!(result.contains("driver,vehicle_block"));
    assert!(result.contains("R1,B1"));
}

#[test]
fn test_time_format_seconds() {
    let schedule = Schedule::from_rows(vec![export_row()]);
    let config = ExportConfig::with_columns(vec!["start_time", "end_time"])
        .time_format(TimeFormat::Seconds);
    let exporter = CsvExporter::new(config);

    let result = exporter.export_to_string(&schedule).unwrap();

    assert!(result.contains("28800")); // 08:00:00
    assert!(result.contains("32400")); // 09:00:00
}

#[test]
fn test_time_format_hhmm() {
    let schedule = Schedule::from_rows(vec![export_row()]);
    let config = ExportConfig::with_columns(vec!["start_time"]).time_format(TimeFormat::HhMm);
    let exporter = CsvExporter::new(config);

    let result = exporter.export_to_string(&schedule).unwrap();

    assert!(result.contains("08:00"));
    assert!(!result.contains("08:00:00"));
}

#[test]
fn test_null_value() {
    let mut row = export_row();
    row.depot = None;

    let schedule = Schedule::from_rows(vec![row]);
    let config = ExportConfig::with_columns(vec!["run_number", "depot"]).null_value("N/A");
    let exporter = CsvExporter::new(config);

    let result = exporter.export_to_string(&schedule).unwrap();

    assert!(result.contains("R1,N/A"));
}

#[test]
fn presets_hold_their_columns_in_order() {
    let fields = |p: ExportPreset| -> Vec<String> {
        p.to_config().columns.iter().map(|c| c.field.clone()).collect()
    };
    let headers = |p: ExportPreset| -> Vec<String> {
        p.to_config().columns.iter().map(|c| c.header.clone()).collect()
    };
    assert_eq!(fields(ExportPreset::Minimal), ["run_number", "block", "trip_id", "start_time", "end_time"]);
    assert_eq!(headers(ExportPreset::Minimal), fields(ExportPreset::Minimal));
    assert_eq!(fields(ExportPreset::Default).len(), 15);
    assert_eq!(fields(ExportPreset::Default)[14], "route_shape_id");
    assert_eq!(fields(ExportPreset::Extended).len(), 20);
    assert_eq!(fields(ExportPreset::Extended)[19], "row_type");
    assert_eq!(
        headers(ExportPreset::OptibusLike),
        [
            "Run", "Block", "Activity", "StartStop", "EndStop", "StartTime", "EndTime", "TripID",
            "Route", "Direction", "Depot", "VehicleType"
        ]
    );
    assert_eq!(
        headers(ExportPreset::HastusLike),
        [
            "DUTY_NO", "BLOCK_NO", "RUN_NO", "TRIP_NO", "ROUTE", "FROM_STOP", "TO_STOP", "START",
            "END", "TYPE", "GARAGE", "VEH_TYPE"
        ]
    );
    assert_eq!(
        headers(ExportPreset::GtfsBlock),
        ["block_id", "trip_id", "start_time", "end_time", "start_stop_id", "end_stop_id", "shape_id"]
    );
    assert_eq!(fields(ExportPreset::GtfsBlock)[4], "start_place");
    assert_eq!(ExportPreset::HastusLike.to_config().time_format, TimeFormat::HhMm);
    assert_eq!(ExportPreset::OptibusLike.to_config().time_format, TimeFormat::HhMmSs);
    for preset in [
        ExportPreset::Default,
        ExportPreset::Minimal,
        ExportPreset::Extended,
        ExportPreset::OptibusLike,
        ExportPreset::HastusLike,
        ExportPreset::GtfsBlock,
    ] {
        let config = preset.to_config();
        assert!(config.columns.iter().all(|c| c.included));
        assert_eq!(config.delimiter, b',');
        assert!(config.include_header);
        assert_eq!(config.null_value, "");
    }
}

#[test]
fn export_config_builders() {
    let config = ExportConfig::new();
    assert_eq!(config.columns.len(), 15);
    assert_eq!(config.time_format, TimeFormat::HhMmSs);
    assert_eq!(TimeFormat::default(), TimeFormat::HhMmSs);
    let config = config.delimiter(b';').null_value("-").time_format(TimeFormat::Seconds);
    assert_eq!(config.delimiter, b';');
    assert_eq!(config.null_value, "-");
    assert_eq!(config.time_format, TimeFormat::Seconds);
    assert_eq!(config.columns.len(), 15);
    let column = ColumnConfig::new("block", "Block");
    assert_eq!((column.field.as_str(), column.header.as_str(), column.included), ("block", "Block", true));
    let hidden = ColumnConfig::excluded("depot");
    assert_eq!((hidden.field.as_str(), hidden.header.as_str(), hidden.included), ("depot", "", false));
}

#[test]
fn times_are_written_in_each_format() {
    let with = |f: TimeFormat| CsvExporter::new(ExportConfig::new().time_format(f));
    let full = with(TimeFormat::HhMmSs);
    assert_eq!(full.format_time("08:00:00"), "08:00:00");
    assert_eq!(full.format_time("8:5"), "8:5");
    assert_eq!(full.format_time("52200"), "14:30:00");
    assert_eq!(full.format_time("later"), "later");
    assert_eq!(full.format_time(""), "");
    let short = with(TimeFormat::HhMm);
    assert_eq!(short.format_time("08:00:00"), "08:00");
    assert_eq!(short.format_time("08:15"), "08:15");
    assert_eq!(short.format_time("1:2:3:4"), "1:2");
    assert_eq!(short.format_time("08:"), "08:");
    assert_eq!(short.format_time("52200"), "14:30");
    assert_eq!(short.format_time("90000"), "25:00");
    assert_eq!(short.format_time("later"), "later");
    let seconds = with(TimeFormat::Seconds);
    assert_eq!(seconds.format_time("08:00:00"), "28800");
    assert_eq!(seconds.format_time("08:30"), "30600");
    assert_eq!(seconds.format_time("25:00:01"), "90001");
    assert_eq!(seconds.format_time("x:30:y"), "1800");
    assert_eq!(seconds.format_time("é:１:5"), "5");
    assert_eq!(seconds.format_time("1:2:3:4"), "1:2:3:4");
    assert_eq!(seconds.format_time("52200"), "52200");
    assert_eq!(seconds.format_time("later"), "later");
    assert_eq!(seconds.format_time("4294967295:59:59"), "15461882265599");
}

#[test]
fn coordinates_are_written_in_degrees() {
    assert_eq!(coordinate_string(407_128_000), "40.7128");
    assert_eq!(coordinate_string(-740_060_000), "-74.006");
    assert_eq!(coordinate_string(0), "0");
    assert_eq!(coordinate_string(10_000_000), "1");
    assert_eq!(coordinate_string(1), "0.0000001");
    assert_eq!(coordinate_string(-5_000_000), "-0.5");
    assert_eq!(coordinate_string(i32::MAX), "214.7483647");
    assert_eq!(coordinate_string(i32::MIN), "-214.7483648");
    assert_eq!(coordinate_string(1_000_010), "0.100001");
}

#[test]
fn every_field_can_be_exported() {
    let mut row = export_row();
    row.depot = Some("D".to_string());
    row.vehicle_class = Some("VC".to_string());
    row.vehicle_type = Some("VT".to_string());
    row.start_lat = Some(10_000_000);
    row.start_lon = Some(-25_000_000);
    row.end_lat = Some(35_000_000);
    row.route_shape_id = Some("SH".to_string());
    row.duty_id = Some("DU".to_string());
    row.shift_id = Some("SF".to_string());
    row.route_short_name = Some("10".to_string());
    row.headsign = Some("Centre".to_string());
    row.row_type = RowType::PullOut;
    let exporter = CsvExporter::new(ExportConfig::new().null_value("?"));
    let value = |f: &str| exporter.get_field_value(&row, f);
    assert_eq!(value("run_number"), "R1");
    assert_eq!(value("block"), "B1");
    assert_eq!(value("start_place"), "STOP_A");
    assert_eq!(value("end_place"), "STOP_B");
    assert_eq!(value("start_time"), "08:00:00");
    assert_eq!(value("end_time"), "09:00:00");
    assert_eq!(value("trip_id"), "TRIP1");
    assert_eq!(value("depot"), "D");
    assert_eq!(value("vehicle_class"), "VC");
    assert_eq!(value("vehicle_type"), "VT");
    assert_eq!(value("start_lat"), "1");
    assert_eq!(value("start_lon"), "-2.5");
    assert_eq!(value("end_lat"), "3.5");
    assert_eq!(value("end_lon"), "?");
    assert_eq!(value("route_shape_id"), "SH");
    assert_eq!(value("row_type"), "pullout");
    assert_eq!(value("duty_id"), "DU");
    assert_eq!(value("shift_id"), "SF");
    assert_eq!(value("route_short_name"), "10");
    assert_eq!(value("headsign"), "Centre");
    assert_eq!(value("unknown"), "?");
    assert_eq!(value("Block"), "?");
    for (kind, name) in [
        (RowType::Revenue, "revenue"),
        (RowType::PullIn, "pullin"),
        (RowType::Deadhead, "deadhead"),
        (RowType::Break, "break"),
        (RowType::Relief, "relief"),
        (RowType::Layover, "layover"),
    ] {
        row.row_type = kind;
        assert_eq!(exporter.get_field_value(&row, "row_type"), name);
    }
}

#[test]
fn records_skip_excluded_columns() {
    let mut config = ExportConfig::with_columns(vec!["run_number", "depot", "trip_id"]);
    config.columns[1].included = false;
    let exporter = CsvExporter::new(config);
    assert_eq!(exporter.header_record(), vec!["run_number".to_string(), "trip_id".to_string()]);
    assert_eq!(exporter.row_to_record(&export_row()), vec!["R1".to_string(), "TRIP1".to_string()]);
    let schedule = Schedule::from_rows(vec![export_row(), export_row()]);
    assert_eq!(exporter.records(&schedule).len(), 3);
    let mut config = ExportConfig::with_columns(vec!["run_number"]);
    config.include_header = false;
    let exporter = CsvExporter::new(config);
    assert_eq!(exporter.records(&schedule), vec![vec!["R1".to_string()], vec!["R1".to_string()]]);
}

#[test]
fn export_is_written_as_csv() {
    let mut row = export_row();
    row.headsign = Some("Main St, \"North\"".to_string());
    let schedule = Schedule::from_rows(vec![row, export_row()]);
    let config = ExportConfig::with_columns(vec!["run_number", "headsign", "trip_id"]);
    let exporter = CsvExporter::new(config);
    let text = exporter.export_to_string(&schedule).unwrap();
    assert_eq!(
        text,
        "run_number,headsign,trip_id\nR1,\"Main St, \"\"North\"\"\",TRIP1\nR1,,TRIP1\n"
    );
    assert_eq!(exporter.export_to_bytes(&schedule).unwrap(), text.as_bytes());
    let nothing = CsvExporter::new(ExportConfig::with_columns(vec![]));
    assert_eq!(nothing.export_to_string(&Schedule::new()).unwrap(), "\"\"\n");
}

#[test]
fn a_failure_to_write_or_decode_is_an_export_error() {
    let out = append_written(vec![1, 2], Ok(vec![3]));
    assert_eq!(out.unwrap(), vec![1, 2, 3]);
    match append_written(vec![1, 2], Err("disk full".to_string())) {
        Err(ExportError::Csv(message)) => assert_eq!(message, "disk full"),
        Ok(_) => panic!("a failure was taken for written bytes"),
    }
    assert_eq!(decode_written(vec![b'a', 0xc3, 0xa9]).unwrap(), "aé");
    assert!(matches!(decode_written(vec![b'a', 0xff]), Err(ExportError::Csv(_))));
    let records = vec![vec!["a".to_string(), "b c".to_string()], vec!["1".to_string()]];
    assert_eq!(write_csv(&records).unwrap(), b"a,b c\n1\n");
    assert_eq!(write_csv(&vec![]).unwrap(), b"");
}
