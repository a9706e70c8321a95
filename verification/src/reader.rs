//! Reading a schedule from CSV text, with a mapping from fields to columns.

use crate::coordinate::{parse_coordinate, spec_parse_coordinate};
use crate::formats::generic_csv::{all_texts, texts};
use crate::models::schedule::Schedule;
use crate::models::schedule_row::{RowType, ScheduleRow};
use crate::text::{
    lowercase, opt_view, str_contains, str_eq, text_contains, to_lower, trim_text, trimmed,
};
use vstd::prelude::*;
use vstd::string::*;

verus! {

/// What the `csv` crate makes of the first row of CSV text with the
/// delimiter `delimiter`: the headers, or nothing where it fails.
pub uninterp spec fn csv_headers(bytes: Seq<u8>, delimiter: u8) -> Option<Seq<Seq<char>>>;

/// What the `csv` crate makes of CSV text with the delimiter `delimiter`:
/// the records, behind the header row where there is one, or nothing where
/// it fails.
pub uninterp spec fn csv_records(bytes: Seq<u8>, delimiter: u8, has_headers: bool) -> Option<
    Seq<Seq<Seq<char>>>,
>;

/// `csv::Reader::headers` on a reader over the bytes, with the delimiter
/// `delimiter` and a header row: the outcome depends on the bytes and the
/// delimiter alone; on success it holds the headers.
#[verifier::external_body]
fn read_csv_headers(bytes: &[u8], delimiter: u8) -> (r: Result<Vec<String>, csv::Error>)
    ensures
        r is Ok <==> csv_headers(bytes@, delimiter) is Some,
        r is Ok ==> csv_headers(bytes@, delimiter) == Some(texts(r->Ok_0@)),
{
    let mut reader = csv::ReaderBuilder::new().delimiter(delimiter).from_reader(bytes);
    Ok(reader.headers()?.iter().map(String::from).collect())
}

/// `csv::Reader::records` on a reader over the bytes, with the delimiter
/// `delimiter` and with or without a header row: the outcome depends on
/// these alone; on success it holds all records, and it fails where one of
/// them cannot be read.
#[verifier::external_body]
fn read_csv_records(bytes: &[u8], delimiter: u8, has_headers: bool) -> (r: Result<
    Vec<Vec<String>>,
    csv::Error,
>)
    ensures
        r is Ok <==> csv_records(bytes@, delimiter, has_headers) is Some,
        r is Ok ==> csv_records(bytes@, delimiter, has_headers) == Some(all_texts(r->Ok_0@)),
{
    let mut builder = csv::ReaderBuilder::new();
    let mut reader = builder.has_headers(has_headers).delimiter(delimiter).from_reader(bytes);
    let mut records: Vec<Vec<String>> = Vec::new();
    for record in reader.records() {
        records.push(record?.iter().map(String::from).collect());
    }
    Ok(records)
}

/// Why a schedule could not be read.
#[derive(Debug)]
pub enum ReadError {
    /// The text is no CSV; with the words of the failure.
    Csv(String),
}

/// From which column each field is read. Where a field is named twice, the
/// later entry counts.
#[derive(Debug)]
pub struct ColumnMapping {
    /// Field and column.
    pub mappings: Vec<(String, String)>,
}

/// How a schedule is read.
#[derive(Debug)]
pub struct ReadOptions {
    /// The mapping from fields to columns.
    pub column_mapping: Option<ColumnMapping>,
    /// Whether the mapping is found from the headers where none is given.
    pub auto_detect_columns: bool,
    /// The delimiter; a comma where none is given.
    pub delimiter: Option<u8>,
    /// Whether the first row holds the headers.
    pub has_headers: bool,
    /// Whether rows of empty fields are passed over.
    pub skip_empty_rows: bool,
}

/// Reads schedules.
#[derive(Debug)]
pub struct ScheduleReader;

/// The column that `pairs` gives for `field`.
pub open spec fn column_at(pairs: Seq<(String, String)>, field: Seq<char>) -> Option<Seq<char>>
    decreases pairs.len(),
{
    if pairs.len() == 0 {
        None
    } else if pairs.last().0@ == field {
        Some(pairs.last().1@)
    } else {
        column_at(pairs.drop_last(), field)
    }
}

/// Whether `field` is one of the fields of a row.
pub open spec fn is_row_field(field: Seq<char>) -> bool {
    ||| field == "run_number"@
    ||| field == "block"@
    ||| field == "start_place"@
    ||| field == "end_place"@
    ||| field == "start_time"@
    ||| field == "end_time"@
    ||| field == "trip_id"@
    ||| field == "depot"@
    ||| field == "vehicle_class"@
    ||| field == "vehicle_type"@
    ||| field == "start_lat"@
    ||| field == "start_lon"@
    ||| field == "end_lat"@
    ||| field == "end_lon"@
    ||| field == "route_shape_id"@
    ||| field == "row_type"@
    ||| field == "duty_id"@
    ||| field == "shift_id"@
    ||| field == "route_short_name"@
    ||| field == "headsign"@
}

/// The names by which the columns of the fields are known, in the order in
/// which the fields are looked for.
pub open spec fn detection_table() -> Seq<(Seq<char>, Seq<Seq<char>>)> {
    seq![
        ("run_number"@, seq!["run_number"@, "run"@, "run_no"@, "driver_id"@, "operator_id"@]),
        ("block"@, seq!["block"@, "block_id"@, "vehicle_block"@, "blk"@]),
        (
            "start_place"@,
            seq!["start_place"@, "start_stop"@, "from_stop"@, "origin"@, "start_location"@],
        ),
        (
            "end_place"@,
            seq!["end_place"@, "end_stop"@, "to_stop"@, "destination"@, "end_location"@],
        ),
        ("start_time"@, seq!["start_time"@, "departure_time"@, "depart_time"@, "start"@]),
        ("end_time"@, seq!["end_time"@, "arrival_time"@, "arrive_time"@, "end"@]),
        ("trip_id"@, seq!["trip_id"@, "trip"@, "gtfs_trip_id"@]),
        ("depot"@, seq!["depot"@, "garage"@, "depot_id"@, "base"@]),
        ("vehicle_class"@, seq!["vehicle_class"@, "veh_class"@, "bus_type"@]),
        ("vehicle_type"@, seq!["vehicle_type"@, "veh_type"@, "vehicle"@]),
        ("start_lat"@, seq!["start_lat"@, "from_lat"@, "origin_lat"@]),
        ("start_lon"@, seq!["start_lon"@, "from_lon"@, "origin_lon"@]),
        ("end_lat"@, seq!["end_lat"@, "to_lat"@, "dest_lat"@]),
        ("end_lon"@, seq!["end_lon"@, "to_lon"@, "dest_lon"@]),
        ("route_shape_id"@, seq!["route_shape_id"@, "shape_id"@]),
        ("row_type"@, seq!["row_type"@, "type"@, "activity_type"@, "movement_type"@]),
        ("duty_id"@, seq!["duty_id"@, "duty"@, "crew_id"@]),
        ("shift_id"@, seq!["shift_id"@, "shift"@]),
        ("route_short_name"@, seq!["route_short_name"@, "route"@, "line"@]),
        ("headsign"@, seq!["headsign"@, "destination"@, "direction"@]),
    ]
}

/// Whether one of the first `n` of `names` occurs in `lowered`.
pub open spec fn any_name_in(lowered: Seq<char>, names: Seq<Seq<char>>, n: int) -> bool {
    exists|k: int| 0 <= k < n && text_contains(lowered, #[trigger] names[k])
}

/// Whether the header, in lower case, holds one of `names`.
pub open spec fn header_matches(header: Seq<char>, names: Seq<Seq<char>>) -> bool {
    any_name_in(lowercase(header), names, names.len() as int)
}

/// The first header that matches one of `names`.
pub open spec fn first_matching(headers: Seq<Seq<char>>, names: Seq<Seq<char>>) -> Option<
    Seq<char>,
>
    decreases headers.len(),
{
    if headers.len() == 0 {
        None
    } else {
        match first_matching(headers.drop_last(), names) {
            Some(h) => Some(h),
            None => if header_matches(headers.last(), names) {
                Some(headers.last())
            } else {
                None
            },
        }
    }
}

/// The column that is found for `field` after the first `n` entries of
/// `table` have been looked for among the headers. A later entry for the
/// same field counts.
pub open spec fn detected_upto(
    table: Seq<(Seq<char>, Seq<Seq<char>>)>,
    headers: Seq<Seq<char>>,
    field: Seq<char>,
    n: int,
) -> Option<Seq<char>>
    decreases n,
{
    if n <= 0 {
        None
    } else if table[n - 1].0 == field && first_matching(headers, table[n - 1].1) is Some {
        first_matching(headers, table[n - 1].1)
    } else {
        detected_upto(table, headers, field, n - 1)
    }
}

/// The column that is found for `field` among the headers: the first
/// header that holds, in lower case, one of the names of the field.
pub open spec fn detected(headers: Seq<Seq<char>>, field: Seq<char>) -> Option<Seq<char>> {
    detected_upto(detection_table(), headers, field, detection_table().len() as int)
}

/// The kind of row that a name in lower case stands for.
pub open spec fn row_type_for(lowered: Seq<char>) -> RowType {
    if lowered == "revenue"@ || lowered == "trip"@ || lowered == "service"@ {
        RowType::Revenue
    } else if lowered == "pull_out"@ || lowered == "pullout"@ || lowered == "pull-out"@ || lowered
        == "po"@ {
        RowType::PullOut
    } else if lowered == "pull_in"@ || lowered == "pullin"@ || lowered == "pull-in"@ || lowered
        == "pi"@ {
        RowType::PullIn
    } else if lowered == "deadhead"@ || lowered == "dh"@ || lowered == "dead"@ || lowered
        == "non_revenue"@ {
        RowType::Deadhead
    } else if lowered == "break"@ || lowered == "brk"@ || lowered == "meal"@ {
        RowType::Break
    } else if lowered == "relief"@ || lowered == "changeover"@ || lowered == "swap"@ {
        RowType::Relief
    } else if lowered == "layover"@ || lowered == "wait"@ || lowered == "dwell"@ {
        RowType::Layover
    } else {
        RowType::Revenue
    }
}

/// The kind of row that a name stands for, whatever its case.
pub open spec fn spec_parse_row_type(s: Seq<char>) -> RowType {
    row_type_for(lowercase(s))
}

/// The kind of row that a name in lower case stands for; a name that is
/// not known stands for a revenue trip.
pub fn classify_row_type(lowered: &str) -> (r: RowType)
    ensures
        r == row_type_for(lowered@),
{
    if str_eq(lowered, "revenue") || str_eq(lowered, "trip") || str_eq(lowered, "service") {
        RowType::Revenue
    } else if str_eq(lowered, "pull_out") || str_eq(lowered, "pullout") || str_eq(
        lowered,
        "pull-out",
    ) || str_eq(lowered, "po") {
        RowType::PullOut
    } else if str_eq(lowered, "pull_in") || str_eq(lowered, "pullin") || str_eq(
        lowered,
        "pull-in",
    ) || str_eq(lowered, "pi") {
        RowType::PullIn
    } else if str_eq(lowered, "deadhead") || str_eq(lowered, "dh") || str_eq(lowered, "dead")
        || str_eq(lowered, "non_revenue") {
        RowType::Deadhead
    } else if str_eq(lowered, "break") || str_eq(lowered, "brk") || str_eq(lowered, "meal") {
        RowType::Break
    } else if str_eq(lowered, "relief") || str_eq(lowered, "changeover") || str_eq(
        lowered,
        "swap",
    ) {
        RowType::Relief
    } else if str_eq(lowered, "layover") || str_eq(lowered, "wait") || str_eq(lowered, "dwell") {
        RowType::Layover
    } else {
        RowType::Revenue
    }
}

/// The kind of row that a name stands for, whatever its case.
pub fn parse_row_type(s: &str) -> (r: RowType)
    ensures
        r == spec_parse_row_type(s@),
{
    let lowered = to_lower(s);
    classify_row_type(lowered.as_str())
}

impl Default for ColumnMapping {
    fn default() -> (r: Self)
        ensures
            r.mappings@.len() == 0,
    {
        ColumnMapping { mappings: Vec::new() }
    }
}

impl ColumnMapping {
    /// The column that `field` is read from.
    pub open spec fn column_text(&self, field: Seq<char>) -> Option<Seq<char>> {
        column_at(self.mappings@, field)
    }

    /// Whether every field of a row is read from the column of its own
    /// name, and nothing else is mapped.
    pub open spec fn is_default(&self) -> bool {
        forall|field: Seq<char>| #[trigger]
            self.column_text(field) == (if is_row_field(field) {
                Some(field)
            } else {
                None
            })
    }

    /// A mapping without entries.
    pub fn new() -> (r: Self)
        ensures
            r.mappings@.len() == 0,
            forall|field: Seq<char>| #[trigger] r.column_text(field) is None,
    {
        ColumnMapping { mappings: Vec::new() }
    }

    /// The mapping that holds the pairs of `mappings`: field and column.
    pub fn from_map(mappings: Vec<(String, String)>) -> (r: Self)
        ensures
            r.mappings == mappings,
    {
        ColumnMapping { mappings }
    }

    /// Reads `field` from `column` from now on.
    pub fn add(&mut self, field: &str, column: &str)
        ensures
            forall|other: Seq<char>| #[trigger]
                final(self).column_text(other) == (if other == field@ {
                    Some(column@)
                } else {
                    old(self).column_text(other)
                }),
    {
        let ghost before = self.mappings@;
        self.mappings.push((String::from_str(field), String::from_str(column)));
        proof {
            assert(self.mappings@.drop_last() =~= before);
        }
    }

    /// The column that `field` is read from.
    pub fn get_column(&self, field: &str) -> (r: Option<&str>)
        ensures
            r is Some <==> self.column_text(field@) is Some,
            r is Some ==> r.unwrap()@ == self.column_text(field@).unwrap(),
    {
        let mut found: Option<&str> = None;
        let mut i: usize = 0;
        while i < self.mappings.len()
            invariant
                i <= self.mappings.len(),
                found is Some <==> column_at(self.mappings@.take(i as int), field@) is Some,
                found is Some ==> found.unwrap()@ == column_at(
                    self.mappings@.take(i as int),
                    field@,
                ).unwrap(),
            decreases self.mappings.len() - i,
        {
            proof {
                assert(self.mappings@.take(i + 1).drop_last() =~= self.mappings@.take(i as int));
            }
            if str_eq(self.mappings[i].0.as_str(), field) {
                found = Some(self.mappings[i].1.as_str());
            }
            i = i + 1;
        }
        proof {
            assert(self.mappings@.take(self.mappings.len() as int) =~= self.mappings@);
        }
        found
    }

    /// The mapping that reads every field from the column of its own name.
    pub fn default_mapping() -> (r: Self)
        ensures
            r.is_default(),
    {
        let mut m = Self::new();
        m.add("run_number", "run_number");
        m.add("block", "block");
        m.add("start_place", "start_place");
        m.add("end_place", "end_place");
        m.add("start_time", "start_time");
        m.add("end_time", "end_time");
        m.add("trip_id", "trip_id");
        m.add("depot", "depot");
        m.add("vehicle_class", "vehicle_class");
        m.add("vehicle_type", "vehicle_type");
        let ghost half = m;
        assert forall|field: Seq<char>| #[trigger]
            half.column_text(field) == (if field == "run_number"@ || field == "block"@ || field
                == "start_place"@ || field == "end_place"@ || field == "start_time"@ || field
                == "end_time"@ || field == "trip_id"@ || field == "depot"@ || field
                == "vehicle_class"@ || field == "vehicle_type"@ {
                Some(field)
            } else {
                None
            }) by {}
        m.add("start_lat", "start_lat");
        m.add("start_lon", "start_lon");
        m.add("end_lat", "end_lat");
        m.add("end_lon", "end_lon");
        m.add("route_shape_id", "route_shape_id");
        m.add("row_type", "row_type");
        m.add("duty_id", "duty_id");
        m.add("shift_id", "shift_id");
        m.add("route_short_name", "route_short_name");
        m.add("headsign", "headsign");
        assert forall|field: Seq<char>| #[trigger]
            m.column_text(field) == (if is_row_field(field) {
                Some(field)
            } else {
                None
            }) by {}
        m
    }
}

/// The texts of names.
pub open spec fn name_texts(names: Seq<&'static str>) -> Seq<Seq<char>> {
    Seq::new(names.len(), |i: int| names[i]@)
}

/// The texts of a table of fields and names.
pub open spec fn table_texts(table: Seq<(&'static str, Vec<&'static str>)>) -> Seq<
    (Seq<char>, Seq<Seq<char>>),
> {
    Seq::new(table.len(), |i: int| (table[i].0@, name_texts(table[i].1@)))
}

/// The names by which the columns of the fields are known.
fn detection_names() -> (r: Vec<(&'static str, Vec<&'static str>)>)
    ensures
        table_texts(r@) == detection_table(),
{
    let mut t: Vec<(&'static str, Vec<&'static str>)> = Vec::new();
    t.push(("run_number", vec!["run_number", "run", "run_no", "driver_id", "operator_id"]));
    t.push(("block", vec!["block", "block_id", "vehicle_block", "blk"]));
    t.push(
        ("start_place", vec!["start_place", "start_stop", "from_stop", "origin", "start_location"]),
    );
    t.push(("end_place", vec!["end_place", "end_stop", "to_stop", "destination", "end_location"]));
    t.push(("start_time", vec!["start_time", "departure_time", "depart_time", "start"]));
    t.push(("end_time", vec!["end_time", "arrival_time", "arrive_time", "end"]));
    t.push(("trip_id", vec!["trip_id", "trip", "gtfs_trip_id"]));
    t.push(("depot", vec!["depot", "garage", "depot_id", "base"]));
    t.push(("vehicle_class", vec!["vehicle_class", "veh_class", "bus_type"]));
    t.push(("vehicle_type", vec!["vehicle_type", "veh_type", "vehicle"]));
    t.push(("start_lat", vec!["start_lat", "from_lat", "origin_lat"]));
    t.push(("start_lon", vec!["start_lon", "from_lon", "origin_lon"]));
    t.push(("end_lat", vec!["end_lat", "to_lat", "dest_lat"]));
    t.push(("end_lon", vec!["end_lon", "to_lon", "dest_lon"]));
    t.push(("route_shape_id", vec!["route_shape_id", "shape_id"]));
    t.push(("row_type", vec!["row_type", "type", "activity_type", "movement_type"]));
    t.push(("duty_id", vec!["duty_id", "duty", "crew_id"]));
    t.push(("shift_id", vec!["shift_id", "shift"]));
    t.push(("route_short_name", vec!["route_short_name", "route", "line"]));
    t.push(("headsign", vec!["headsign", "destination", "direction"]));
    proof {
        let a = table_texts(t@);
        let b = detection_table();
        assert(a.len() == b.len());
        assert forall|i: int| 0 <= i < a.len() implies a[i] == b[i] by {
            assert(a[i].0 == b[i].0);
            assert(a[i].1 =~= b[i].1);
        }
        assert(a =~= b);
    }
    t
}

/// Whether the header, in lower case, holds one of `names`.
fn header_holds(header: &str, names: &Vec<&'static str>) -> (r: bool)
    ensures
        r == header_matches(header@, name_texts(names@)),
{
    let lowered = to_lower(header);
    let mut k: usize = 0;
    while k < names.len()
        invariant
            k <= names.len(),
            lowered@ == lowercase(header@),
            !any_name_in(lowered@, name_texts(names@), k as int),
        decreases names.len() - k,
    {
        if str_contains(lowered.as_str(), names[k]) {
            proof {
                assert(name_texts(names@)[k as int] == names@[k as int]@);
                assert(text_contains(lowered@, name_texts(names@)[k as int]));
            }
            return true;
        }
        proof {
            assert(name_texts(names@)[k as int] == names@[k as int]@);
        }
        k = k + 1;
    }
    false
}

/// The first header that holds one of `names`.
fn find_matching<'a>(headers: &'a Vec<String>, names: &Vec<&'static str>) -> (r: Option<&'a String>)
    ensures
        opt_ref_text(r) == first_matching(texts(headers@), name_texts(names@)),
{
    let mut i: usize = 0;
    let ghost all = texts(headers@);
    while i < headers.len()
        invariant
            i <= headers.len(),
            all == texts(headers@),
            first_matching(all.take(i as int), name_texts(names@)) is None,
        decreases headers.len() - i,
    {
        proof {
            assert(all.take(i + 1).drop_last() =~= all.take(i as int));
            assert(all.take(i + 1).last() == headers@[i as int]@);
        }
        if header_holds(headers[i].as_str(), names) {
            proof {
                lemma_first_matching_prefix(all, name_texts(names@), i as int + 1);
            }
            return Some(&headers[i]);
        }
        i = i + 1;
    }
    proof {
        assert(all.take(headers.len() as int) =~= all);
    }
    None
}

/// The text of an optional reference to a string.
pub open spec fn opt_ref_text(o: Option<&String>) -> Option<Seq<char>> {
    match o {
        Some(s) => Some(s@),
        None => None,
    }
}

/// A header that is found among the first of the headers is the first
/// among all of them.
proof fn lemma_first_matching_prefix(headers: Seq<Seq<char>>, names: Seq<Seq<char>>, n: int)
    requires
        0 <= n <= headers.len(),
        first_matching(headers.take(n), names) is Some,
    ensures
        first_matching(headers, names) == first_matching(headers.take(n), names),
    decreases headers.len() - n,
{
    if n < headers.len() {
        assert(headers.take(n + 1).drop_last() =~= headers.take(n));
        lemma_first_matching_prefix(headers, names, n + 1);
    } else {
        assert(headers.take(n) =~= headers);
    }
}

impl ColumnMapping {
    /// Finds the mapping from the headers: each field is read from the
    /// first header that holds, in lower case, one of the names by which
    /// the field is known. A field for which no header is found is not mapped.
    pub fn auto_detect(headers: &Vec<String>) -> (r: Self)
        ensures
            forall|field: Seq<char>| #[trigger]
                r.column_text(field) == detected(texts(headers@), field),
    {
        let table = detection_names();
        let mut mapping = Self::new();
        let mut t: usize = 0;
        while t < table.len()
            invariant
                t <= table.len(),
                table_texts(table@) == detection_table(),
                forall|field: Seq<char>| #[trigger]
                    mapping.column_text(field) == detected_upto(
                        detection_table(),
                        texts(headers@),
                        field,
                        t as int,
                    ),
            decreases table.len() - t,
        {
            proof {
                assert(table_texts(table@)[t as int] == (
                    table@[t as int].0@,
                    name_texts(table@[t as int].1@),
                ));
            }
            match find_matching(headers, &table[t].1) {
                Some(header) => {
                    mapping.add(table[t].0, header.as_str());
                },
                None => {},
            }
            t = t + 1;
        }
        proof {
            assert(table_texts(table@).len() == table@.len());
        }
        mapping
    }
}

impl Default for ReadOptions {
    fn default() -> (r: Self)
        ensures
            r.column_mapping is None,
            !r.auto_detect_columns,
            r.delimiter is None,
            !r.has_headers,
            !r.skip_empty_rows,
    {
        ReadOptions {
            column_mapping: None,
            auto_detect_columns: false,
            delimiter: None,
            has_headers: false,
            skip_empty_rows: false,
        }
    }
}

impl ReadOptions {
    /// The usual options: the mapping is found from the headers, the
    /// delimiter is a comma, the first row holds the headers, and rows of
    /// empty fields are passed over.
    pub fn new() -> (r: Self)
        ensures
            r.column_mapping is None,
            r.auto_detect_columns,
            r.delimiter is None,
            r.has_headers,
            r.skip_empty_rows,
    {
        ReadOptions {
            column_mapping: None,
            auto_detect_columns: true,
            delimiter: None,
            has_headers: true,
            skip_empty_rows: true,
        }
    }

    /// The same options, with the mapping `mapping`.
    pub fn with_mapping(self, mapping: ColumnMapping) -> (r: Self)
        ensures
            r == (ReadOptions { column_mapping: Some(mapping), ..self }),
    {
        let mut o = self;
        o.column_mapping = Some(mapping);
        o
    }

    /// The same options, with the delimiter `delimiter`.
    pub fn with_delimiter(self, delimiter: u8) -> (r: Self)
        ensures
            r == (ReadOptions { delimiter: Some(delimiter), ..self }),
    {
        let mut o = self;
        o.delimiter = Some(delimiter);
        o
    }
}

/// The position of the column `column` among the headers: the last one
/// where the header occurs twice.
pub open spec fn header_position(headers: Seq<Seq<char>>, column: Seq<char>) -> Option<int>
    decreases headers.len(),
{
    if headers.len() == 0 {
        None
    } else if headers.last() == column {
        Some(headers.len() - 1)
    } else {
        header_position(headers.drop_last(), column)
    }
}

/// The value that a record holds in the column `column`: the field at the
/// position of the column, without white space at its ends, where there is
/// such a field and it is not empty.
pub open spec fn field_value(
    column: Option<Seq<char>>,
    headers: Seq<Seq<char>>,
    record: Seq<Seq<char>>,
) -> Option<Seq<char>> {
    match column {
        Some(name) => match header_position(headers, name) {
            Some(i) => if i < record.len() && trimmed(record[i]).len() > 0 {
                Some(trimmed(record[i]))
            } else {
                None
            },
            None => None,
        },
        None => None,
    }
}

/// The coordinate that an optional text denotes.
pub open spec fn coordinate_of(text: Option<Seq<char>>) -> Option<i32> {
    match text {
        Some(t) => spec_parse_coordinate(t),
        None => None,
    }
}

/// The kind of row that an optional text names: a revenue trip where there
/// is none.
pub open spec fn row_type_of(text: Option<Seq<char>>) -> RowType {
    match text {
        Some(t) => spec_parse_row_type(t),
        None => RowType::Revenue,
    }
}

/// Whether `row` is what `record` holds: every field has the value of its
/// column, a coordinate is read from degrees, and the kind of row from its name.
pub open spec fn is_row_of(
    row: ScheduleRow,
    columns: spec_fn(Seq<char>) -> Option<Seq<char>>,
    headers: Seq<Seq<char>>,
    record: Seq<Seq<char>>,
) -> bool {
    &&& opt_view(row.run_number) == field_value(columns("run_number"@), headers, record)
    &&& opt_view(row.block) == field_value(columns("block"@), headers, record)
    &&& opt_view(row.start_place) == field_value(columns("start_place"@), headers, record)
    &&& opt_view(row.end_place) == field_value(columns("end_place"@), headers, record)
    &&& opt_view(row.start_time) == field_value(columns("start_time"@), headers, record)
    &&& opt_view(row.end_time) == field_value(columns("end_time"@), headers, record)
    &&& opt_view(row.trip_id) == field_value(columns("trip_id"@), headers, record)
    &&& opt_view(row.depot) == field_value(columns("depot"@), headers, record)
    &&& opt_view(row.vehicle_class) == field_value(columns("vehicle_class"@), headers, record)
    &&& opt_view(row.vehicle_type) == field_value(columns("vehicle_type"@), headers, record)
    &&& row.start_lat == coordinate_of(field_value(columns("start_lat"@), headers, record))
    &&& row.start_lon == coordinate_of(field_value(columns("start_lon"@), headers, record))
    &&& row.end_lat == coordinate_of(field_value(columns("end_lat"@), headers, record))
    &&& row.end_lon == coordinate_of(field_value(columns("end_lon"@), headers, record))
    &&& opt_view(row.route_shape_id) == field_value(columns("route_shape_id"@), headers, record)
    &&& row.row_type == row_type_of(field_value(columns("row_type"@), headers, record))
    &&& opt_view(row.duty_id) == field_value(columns("duty_id"@), headers, record)
    &&& opt_view(row.shift_id) == field_value(columns("shift_id"@), headers, record)
    &&& opt_view(row.route_short_name) == field_value(
        columns("route_short_name"@),
        headers,
        record,
    )
    &&& opt_view(row.headsign) == field_value(columns("headsign"@), headers, record)
}

/// Whether every field of the record is empty but for white space.
pub open spec fn is_blank_record(record: Seq<Seq<char>>) -> bool {
    forall|i: int| 0 <= i < record.len() ==> trimmed(#[trigger] record[i]).len() == 0
}

/// The records that are read as rows: all of them, or all but the blank ones.
pub open spec fn kept_records(records: Seq<Seq<Seq<char>>>, skip_blank: bool) -> Seq<
    Seq<Seq<char>>,
>
    decreases records.len(),
{
    if records.len() == 0 {
        Seq::empty()
    } else if skip_blank && is_blank_record(records.last()) {
        kept_records(records.drop_last(), skip_blank)
    } else {
        kept_records(records.drop_last(), skip_blank).push(records.last())
    }
}

/// The column that `field` is read from under `options`: as the given
/// mapping says; else as found from the headers, where that is wanted and
/// there are headers; else the column of the field's own name.
pub open spec fn chosen_column(options: ReadOptions, headers: Seq<Seq<char>>, field: Seq<char>) -> Option<
    Seq<char>,
> {
    match options.column_mapping {
        Some(m) => m.column_text(field),
        None => if options.auto_detect_columns && headers.len() > 0 {
            detected(headers, field)
        } else if is_row_field(field) {
            Some(field)
        } else {
            None
        },
    }
}

/// The columns that the fields are read from under `options`.
pub open spec fn chosen_columns(options: ReadOptions, headers: Seq<Seq<char>>) -> spec_fn(
    Seq<char>,
) -> Option<Seq<char>> {
    |field: Seq<char>| chosen_column(options, headers, field)
}

/// Whether `schedule` is what is read from `headers` and `records` under
/// `options`: one row for each record that is kept, in their order, and
/// the mapping that was used in the metadata.
pub open spec fn is_read_from(
    schedule: Schedule,
    headers: Seq<Seq<char>>,
    records: Seq<Seq<Seq<char>>>,
    options: ReadOptions,
) -> bool {
    let kept = kept_records(records, options.skip_empty_rows);
    let columns = chosen_columns(options, headers);
    &&& schedule.rows@.len() == kept.len()
    &&& forall|i: int|
        0 <= i < kept.len() ==> is_row_of(#[trigger] schedule.rows@[i], columns, headers, kept[i])
    &&& schedule.blocks is None
    &&& schedule.duties is None
    &&& schedule.metadata.column_mapping is Some
    &&& forall|field: Seq<char>| #[trigger]
        column_at(schedule.metadata.column_mapping.unwrap()@, field) == chosen_column(
            options,
            headers,
            field,
        )
    &&& schedule.metadata.source_file is None
    &&& schedule.metadata.name is None
    &&& schedule.metadata.start_date is None
    &&& schedule.metadata.end_date is None
    &&& schedule.metadata.operator is None
}

/// The position of the column `column` among the headers.
fn find_header(headers: &Vec<String>, column: &str) -> (r: Option<usize>)
    ensures
        r is Some <==> header_position(texts(headers@), column@) is Some,
        r is Some ==> r.unwrap() == header_position(texts(headers@), column@).unwrap(),
        r is Some ==> r.unwrap() < headers@.len(),
{
    let mut found: Option<usize> = None;
    let ghost all = texts(headers@);
    let mut i: usize = 0;
    while i < headers.len()
        invariant
            i <= headers.len(),
            all == texts(headers@),
            found is Some <==> header_position(all.take(i as int), column@) is Some,
            found is Some ==> found.unwrap() == header_position(
                all.take(i as int),
                column@,
            ).unwrap() && found.unwrap() < i,
        decreases headers.len() - i,
    {
        proof {
            assert(all.take(i + 1).drop_last() =~= all.take(i as int));
            assert(all.take(i + 1).last() == headers@[i as int]@);
        }
        if str_eq(headers[i].as_str(), column) {
            found = Some(i);
        }
        i = i + 1;
    }
    proof {
        assert(all.take(headers.len() as int) =~= all);
    }
    found
}

/// The value that `record` holds for `field`.
fn get_field(mapping: &ColumnMapping, headers: &Vec<String>, record: &Vec<String>, field: &str) -> (r:
    Option<String>)
    ensures
        opt_view(r) == field_value(mapping.column_text(field@), texts(headers@), texts(record@)),
{
    match mapping.get_column(field) {
        Some(column) => match find_header(headers, column) {
            Some(i) => {
                if i < record.len() {
                    let value = trim_text(record[i].as_str());
                    proof {
                        assert(texts(record@)[i as int] == record@[i as int]@);
                    }
                    if value.unicode_len() == 0 {
                        None
                    } else {
                        Some(String::from_str(value))
                    }
                } else {
                    None
                }
            },
            None => None,
        },
        None => None,
    }
}

/// The coordinate that `record` holds for `field`.
fn get_coordinate(
    mapping: &ColumnMapping,
    headers: &Vec<String>,
    record: &Vec<String>,
    field: &str,
) -> (r: Option<i32>)
    ensures
        r == coordinate_of(
            field_value(mapping.column_text(field@), texts(headers@), texts(record@)),
        ),
{
    match get_field(mapping, headers, record, field) {
        Some(t) => parse_coordinate(t.as_str()),
        None => None,
    }
}

/// Whether every field of the record is empty but for white space.
pub fn is_blank(record: &Vec<String>) -> (r: bool)
    ensures
        r == is_blank_record(texts(record@)),
{
    let mut i: usize = 0;
    while i < record.len()
        invariant
            i <= record.len(),
            forall|k: int| 0 <= k < i ==> trimmed(#[trigger] texts(record@)[k]).len() == 0,
        decreases record.len() - i,
    {
        proof {
            assert(texts(record@)[i as int] == record@[i as int]@);
        }
        if trim_text(record[i].as_str()).unicode_len() != 0 {
            return false;
        }
        i = i + 1;
    }
    true
}

/// Copies the pairs of a mapping.
fn clone_pairs(pairs: &Vec<(String, String)>) -> (r: Vec<(String, String)>)
    ensures
        r@ == pairs@,
{
    let mut out: Vec<(String, String)> = Vec::new();
    let mut i: usize = 0;
    while i < pairs.len()
        invariant
            i <= pairs.len(),
            out@ == pairs@.take(i as int),
        decreases pairs.len() - i,
    {
        out.push((pairs[i].0.clone(), pairs[i].1.clone()));
        proof {
            assert(out@ =~= pairs@.take(i + 1));
        }
        i = i + 1;
    }
    proof {
        assert(pairs@.take(pairs.len() as int) =~= pairs@);
    }
    out
}

impl ScheduleReader {
    /// The row that `record` holds.
    pub fn parse_row(record: &Vec<String>, mapping: &ColumnMapping, headers: &Vec<String>) -> (r:
        ScheduleRow)
        ensures
            is_row_of(
                r,
                |field: Seq<char>| mapping.column_text(field),
                texts(headers@),
                texts(record@),
            ),
    {
        let row_type = match get_field(mapping, headers, record, "row_type") {
            Some(t) => parse_row_type(t.as_str()),
            None => RowType::Revenue,
        };
        ScheduleRow {
            run_number: get_field(mapping, headers, record, "run_number"),
            block: get_field(mapping, headers, record, "block"),
            start_place: get_field(mapping, headers, record, "start_place"),
            end_place: get_field(mapping, headers, record, "end_place"),
            start_time: get_field(mapping, headers, record, "start_time"),
            end_time: get_field(mapping, headers, record, "end_time"),
            trip_id: get_field(mapping, headers, record, "trip_id"),
            depot: get_field(mapping, headers, record, "depot"),
            vehicle_class: get_field(mapping, headers, record, "vehicle_class"),
            vehicle_type: get_field(mapping, headers, record, "vehicle_type"),
            start_lat: get_coordinate(mapping, headers, record, "start_lat"),
            start_lon: get_coordinate(mapping, headers, record, "start_lon"),
            end_lat: get_coordinate(mapping, headers, record, "end_lat"),
            end_lon: get_coordinate(mapping, headers, record, "end_lon"),
            route_shape_id: get_field(mapping, headers, record, "route_shape_id"),
            row_type,
            duty_id: get_field(mapping, headers, record, "duty_id"),
            shift_id: get_field(mapping, headers, record, "shift_id"),
            route_short_name: get_field(mapping, headers, record, "route_short_name"),
            headsign: get_field(mapping, headers, record, "headsign"),
        }
    }

    /// The schedule that `headers` and `records` hold under `options`.
    pub fn assemble(headers: &Vec<String>, records: &Vec<Vec<String>>, options: ReadOptions) -> (r:
        Schedule)
        ensures
            is_read_from(r, texts(headers@), all_texts(records@), options),
    {
        let skip = options.skip_empty_rows;
        let detect = options.auto_detect_columns && headers.len() > 0;
        let ghost given = options;
        let mapping = match options.column_mapping {
            Some(m) => m,
            None => if detect {
                ColumnMapping::auto_detect(headers)
            } else {
                ColumnMapping::default_mapping()
            },
        };
        let ghost columns = chosen_columns(given, texts(headers@));
        proof {
            assert forall|field: Seq<char>| #[trigger]
                mapping.column_text(field) == chosen_column(given, texts(headers@), field) by {}
        }
        let ghost all = all_texts(records@);
        let mut rows: Vec<ScheduleRow> = Vec::new();
        let mut i: usize = 0;
        while i < records.len()
            invariant
                i <= records.len(),
                all == all_texts(records@),
                columns == chosen_columns(given, texts(headers@)),
                forall|field: Seq<char>| #[trigger]
                    mapping.column_text(field) == chosen_column(given, texts(headers@), field),
                rows@.len() == kept_records(all.take(i as int), skip).len(),
                forall|k: int|
                    0 <= k < rows@.len() ==> is_row_of(
                        #[trigger] rows@[k],
                        columns,
                        texts(headers@),
                        kept_records(all.take(i as int), skip)[k],
                    ),
            decreases records.len() - i,
        {
            let ghost before = rows@;
            let ghost kept = kept_records(all.take(i as int), skip);
            proof {
                assert(all.take(i + 1).drop_last() =~= all.take(i as int));
                assert(all.take(i + 1).last() == texts(records@[i as int]@));
            }
            if !(skip && is_blank(&records[i])) {
                let row = Self::parse_row(&records[i], &mapping, headers);
                rows.push(row);
                proof {
                    let grown = kept_records(all.take(i + 1), skip);
                    assert(grown == kept.push(texts(records@[i as int]@)));
                    assert forall|k: int| 0 <= k < rows@.len() implies is_row_of(
                        #[trigger] rows@[k],
                        columns,
                        texts(headers@),
                        grown[k],
                    ) by {
                        if k < before.len() {
                            assert(rows@[k] == before[k]);
                            assert(grown[k] == kept[k]);
                        }
                    }
                }
            }
            i = i + 1;
        }
        proof {
            assert(all.take(records.len() as int) =~= all);
        }
        let mut schedule = Schedule::from_rows(rows);
        schedule.metadata.column_mapping = Some(clone_pairs(&mapping.mappings));
        proof {
            assert forall|field: Seq<char>| #[trigger]
                column_at(schedule.metadata.column_mapping.unwrap()@, field) == chosen_column(
                    given,
                    texts(headers@),
                    field,
                ) by {
                assert(mapping.column_text(field) == chosen_column(given, texts(headers@), field));
            }
        }
        schedule
    }

    /// Reads a schedule from CSV bytes.
    ///
    /// It succeeds exactly where the `csv` crate can read the headers, where
    /// the first row holds them, and the records. The schedule is then what
    /// the headers and records hold under `options`.
    pub fn read_bytes(bytes: &[u8], options: ReadOptions) -> (r: Result<Schedule, ReadError>)
        ensures
            r is Ok <==> is_readable(bytes@, options),
            r is Ok ==> is_read_from(
                r->Ok_0,
                spec_headers(bytes@, options).unwrap(),
                csv_records(
                    bytes@,
                    spec_delimiter(options),
                    options.has_headers,
                ).unwrap(),
                options,
            ),
    {
        let delimiter = match options.delimiter {
            Some(d) => d,
            None => 44u8,
        };
        let headers = if options.has_headers {
            match read_csv_headers(bytes, delimiter) {
                Ok(h) => h,
                Err(e) => {
                    return Err(ReadError::Csv(e.to_string()));
                },
            }
        } else {
            Vec::new()
        };
        proof {
            if !options.has_headers {
                assert(texts(headers@) =~= Seq::<Seq<char>>::empty());
            }
        }
        let records = match read_csv_records(bytes, delimiter, options.has_headers) {
            Ok(r) => r,
            Err(e) => {
                return Err(ReadError::Csv(e.to_string()));
            },
        };
        Ok(Self::assemble(&headers, &records, options))
    }

    /// Reads a schedule from CSV text: what `read_bytes` reads from the
    /// UTF-8 bytes of the text.
    pub fn read_str(csv_str: &str, options: ReadOptions) -> (r: Result<Schedule, ReadError>)
        ensures
            r is Ok <==> is_readable(vstd::utf8::encode_utf8(csv_str@), options),
            r is Ok ==> is_read_from(
                r->Ok_0,
                spec_headers(vstd::utf8::encode_utf8(csv_str@), options).unwrap(),
                csv_records(
                    vstd::utf8::encode_utf8(csv_str@),
                    spec_delimiter(options),
                    options.has_headers,
                ).unwrap(),
                options,
            ),
    {
        Self::read_bytes(csv_str.as_bytes(), options)
    }
}

/// The delimiter that is read with: the given one, else a comma.
pub open spec fn spec_delimiter(options: ReadOptions) -> u8 {
    match options.delimiter {
        Some(d) => d,
        None => 44u8,
    }
}

/// The headers that are read: those of the first row where it holds the
/// headers, else none; nothing where the first row cannot be read.
pub open spec fn spec_headers(bytes: Seq<u8>, options: ReadOptions) -> Option<Seq<Seq<char>>> {
    if options.has_headers {
        csv_headers(bytes, spec_delimiter(options))
    } else {
        Some(Seq::empty())
    }
}

/// Whether the bytes can be read as CSV under `options`: the headers,
/// where the first row holds them, and the records.
pub open spec fn is_readable(bytes: Seq<u8>, options: ReadOptions) -> bool {
    spec_headers(bytes, options) is Some && csv_records(
        bytes,
        spec_delimiter(options),
        options.has_headers,
    ) is Some
}

} // verus!
