//! Export of a schedule as records of text, with configurable columns.

use crate::formats::csv_text::{csv_text, decode_written, write_csv, ExportError};
use crate::models::schedule::Schedule;
use crate::models::schedule_row::{RowType, ScheduleRow};
use crate::text::{
    clone_opt, decimal, decimal2, str_eq, u64_to_decimal, u64_to_decimal2,
};
use crate::time::{
    find_colon_from, first_colon, parse_u32_text, seconds_to_time_string, spec_parse_u32,
    spec_time_string,
};
use vstd::prelude::*;
use vstd::string::*;

verus! {

/// How times are written.
#[derive(Debug, Clone, Copy, PartialEq, Eq, Structural)]
pub enum TimeFormat {
    /// `HH:MM:SS`.
    HhMmSs,
    /// `HH:MM`.
    HhMm,
    /// Seconds past midnight.
    Seconds,
}

impl Default for TimeFormat {
    fn default() -> (r: Self)
        ensures
            r == TimeFormat::HhMmSs,
    {
        TimeFormat::HhMmSs
    }
}

/// One column of an export.
#[derive(Debug)]
pub struct ColumnConfig {
    /// The field of the row that the column shows.
    pub field: String,
    /// The header of the column.
    pub header: String,
    /// Whether the column is written.
    pub included: bool,
}

/// What an export writes.
#[derive(Debug)]
pub struct ExportConfig {
    /// The columns, in their order.
    pub columns: Vec<ColumnConfig>,
    /// How times are written.
    pub time_format: TimeFormat,
    /// The delimiter between fields.
    pub delimiter: u8,
    /// Whether a header row is written.
    pub include_header: bool,
    /// What is written for a field without a value.
    pub null_value: String,
}

/// A column, with its texts as sequences of characters.
pub struct ColumnView {
    pub field: Seq<char>,
    pub header: Seq<char>,
    pub included: bool,
}

impl View for ColumnConfig {
    type V = ColumnView;

    open spec fn view(&self) -> ColumnView {
        ColumnView { field: self.field@, header: self.header@, included: self.included }
    }
}

/// The included column that shows `field` under `header`.
pub open spec fn column(field: Seq<char>, header: Seq<char>) -> ColumnView {
    ColumnView { field, header, included: true }
}

/// The included column that shows `name` under its own name.
pub open spec fn plain_column(name: Seq<char>) -> ColumnView {
    column(name, name)
}

/// The columns of the default export.
pub open spec fn default_column_views() -> Seq<ColumnView> {
    seq![
        plain_column("run_number"@),
        plain_column("block"@),
        plain_column("start_place"@),
        plain_column("end_place"@),
        plain_column("start_time"@),
        plain_column("end_time"@),
        plain_column("trip_id"@),
        plain_column("depot"@),
        plain_column("vehicle_class"@),
        plain_column("vehicle_type"@),
        plain_column("start_lat"@),
        plain_column("start_lon"@),
        plain_column("end_lat"@),
        plain_column("end_lon"@),
        plain_column("route_shape_id"@),
    ]
}

/// The views of columns.
pub open spec fn column_views(columns: Seq<ColumnConfig>) -> Seq<ColumnView> {
    crate::text::views(columns)
}

/// The number that a part of a time denotes, and 0 where it denotes none.
pub open spec fn part_value(part: Seq<char>) -> nat {
    match spec_parse_u32(part) {
        Some(v) => v as nat,
        None => 0,
    }
}

/// A time as it is written in the format `format`.
///
/// A time with a colon is kept as it is for `HH:MM:SS`, cut behind its
/// minutes for `HH:MM`, and added up for seconds, where it has two or three
/// parts; a part that is no number counts as 0. A time without a colon is
/// taken as seconds and written out for `HH:MM:SS` and `HH:MM`. Anything
/// else is kept as it is.
pub open spec fn spec_format_time(format: TimeFormat, time: Seq<char>) -> Seq<char> {
    let n = time.len() as int;
    let c1 = first_colon(time, 0);
    let c2 = first_colon(time, c1 + 1);
    let c3 = first_colon(time, c2 + 1);
    match format {
        TimeFormat::HhMmSs => if c1 < n {
            time
        } else {
            match spec_parse_u32(time) {
                Some(s) => spec_time_string(s),
                None => time,
            }
        },
        TimeFormat::HhMm => if c1 < n {
            time.subrange(0, c1) + seq![':'] + time.subrange(c1 + 1, c2)
        } else {
            match spec_parse_u32(time) {
                Some(s) => decimal2((s / 3600) as nat) + seq![':'] + decimal2(
                    ((s % 3600) / 60) as nat,
                ),
                None => time,
            }
        },
        TimeFormat::Seconds => if c1 >= n {
            time
        } else if c2 >= n {
            decimal(
                part_value(time.subrange(0, c1)) * 3600 + part_value(time.subrange(c1 + 1, n)) * 60,
            )
        } else if c3 >= n {
            decimal(
                part_value(time.subrange(0, c1)) * 3600 + part_value(time.subrange(c1 + 1, c2))
                    * 60 + part_value(time.subrange(c2 + 1, n)),
            )
        } else {
            time
        },
    }
}

/// The name of a kind of row in an export.
pub open spec fn row_type_name(kind: RowType) -> Seq<char> {
    match kind {
        RowType::Revenue => "revenue"@,
        RowType::PullOut => "pullout"@,
        RowType::PullIn => "pullin"@,
        RowType::Deadhead => "deadhead"@,
        RowType::Break => "break"@,
        RowType::Relief => "relief"@,
        RowType::Layover => "layover"@,
    }
}

/// The seven decimal places of a coordinate, without the zeros at the end.
pub open spec fn fraction_digits(fraction: nat, width: nat) -> Seq<char>
    decreases width,
{
    if width == 0 || fraction == 0 {
        Seq::empty()
    } else if fraction % 10 == 0 {
        fraction_digits(fraction / 10, (width - 1) as nat)
    } else {
        crate::text::decimal_padded(fraction, width)
    }
}

/// A coordinate in units of 1e-7 degree, written in degrees: a sign where
/// it is negative, the whole degrees, and the decimal places that are not 0.
pub open spec fn coordinate_text(value: i32) -> Seq<char> {
    let magnitude: nat = if value < 0 {
        (-(value as int)) as nat
    } else {
        value as nat
    };
    let whole = decimal(magnitude / 10_000_000);
    let fraction = fraction_digits(magnitude % 10_000_000, 7);
    (if value < 0 {
        seq!['-']
    } else {
        Seq::empty()
    }) + whole + (if fraction.len() > 0 {
        seq!['.'] + fraction
    } else {
        Seq::empty()
    })
}

/// The text of an optional value.
pub open spec fn opt_text(o: Option<String>) -> Option<Seq<char>> {
    crate::text::opt_view(o)
}

/// The text of an optional time in the format `format`.
pub open spec fn opt_time_text(format: TimeFormat, o: Option<String>) -> Option<Seq<char>> {
    match o {
        Some(t) => Some(spec_format_time(format, t@)),
        None => None,
    }
}

/// The text of an optional coordinate.
pub open spec fn opt_coordinate_text(o: Option<i32>) -> Option<Seq<char>> {
    match o {
        Some(v) => Some(coordinate_text(v)),
        None => None,
    }
}

/// The value of the field `field` of `row`, where the row has one and the
/// field is known.
pub open spec fn field_text(format: TimeFormat, row: ScheduleRow, field: Seq<char>) -> Option<
    Seq<char>,
> {
    if field == "run_number"@ {
        opt_text(row.run_number)
    } else if field == "block"@ {
        opt_text(row.block)
    } else if field == "start_place"@ {
        opt_text(row.start_place)
    } else if field == "end_place"@ {
        opt_text(row.end_place)
    } else if field == "start_time"@ {
        opt_time_text(format, row.start_time)
    } else if field == "end_time"@ {
        opt_time_text(format, row.end_time)
    } else if field == "trip_id"@ {
        opt_text(row.trip_id)
    } else if field == "depot"@ {
        opt_text(row.depot)
    } else if field == "vehicle_class"@ {
        opt_text(row.vehicle_class)
    } else if field == "vehicle_type"@ {
        opt_text(row.vehicle_type)
    } else if field == "start_lat"@ {
        opt_coordinate_text(row.start_lat)
    } else if field == "start_lon"@ {
        opt_coordinate_text(row.start_lon)
    } else if field == "end_lat"@ {
        opt_coordinate_text(row.end_lat)
    } else if field == "end_lon"@ {
        opt_coordinate_text(row.end_lon)
    } else if field == "route_shape_id"@ {
        opt_text(row.route_shape_id)
    } else if field == "row_type"@ {
        Some(row_type_name(row.row_type))
    } else if field == "duty_id"@ {
        opt_text(row.duty_id)
    } else if field == "shift_id"@ {
        opt_text(row.shift_id)
    } else if field == "route_short_name"@ {
        opt_text(row.route_short_name)
    } else if field == "headsign"@ {
        opt_text(row.headsign)
    } else {
        None
    }
}

impl ColumnConfig {
    /// The column that shows `field` under `header`.
    pub fn new(field: &str, header: &str) -> (r: Self)
        ensures
            r@ == column(field@, header@),
    {
        ColumnConfig {
            field: String::from_str(field),
            header: String::from_str(header),
            included: true,
        }
    }

    /// The column of `field` that is not written.
    pub fn excluded(field: &str) -> (r: Self)
        ensures
            r@ == (ColumnView { field: field@, header: Seq::empty(), included: false }),
    {
        ColumnConfig { field: String::from_str(field), header: String::new(), included: false }
    }
}

impl Default for ExportConfig {
    fn default() -> (r: Self)
        ensures
            r.is_default_with(default_column_views()),
    {
        ExportConfig {
            columns: Self::default_columns(),
            time_format: TimeFormat::HhMmSs,
            delimiter: 44u8,
            include_header: true,
            null_value: String::new(),
        }
    }
}

impl ExportConfig {
    /// Whether this is the default export of the columns `columns`:
    /// `HH:MM:SS`, a comma, a header row, and nothing for a missing value.
    pub open spec fn is_default_with(&self, columns: Seq<ColumnView>) -> bool {
        &&& column_views(self.columns@) == columns
        &&& self.time_format == TimeFormat::HhMmSs
        &&& self.delimiter == 44u8
        &&& self.include_header
        &&& self.null_value@ == Seq::<char>::empty()
    }

    /// The default export.
    pub fn new() -> (r: Self)
        ensures
            r.is_default_with(default_column_views()),
    {
        Self::default()
    }

    /// The default export of the fields `columns`, each under its own name.
    pub fn with_columns(columns: Vec<&str>) -> (r: Self)
        ensures
            r.is_default_with(Seq::new(columns@.len(), |i: int| plain_column(columns@[i]@))),
    {
        let mut cols: Vec<ColumnConfig> = Vec::new();
        let mut i: usize = 0;
        while i < columns.len()
            invariant
                i <= columns.len(),
                column_views(cols@) == Seq::new(i as nat, |k: int| plain_column(columns@[k]@)),
            decreases columns.len() - i,
        {
            let c = ColumnConfig::new(columns[i], columns[i]);
            proof {
                crate::text::lemma_views_push(cols@, c);
                assert(Seq::new(i as nat, |k: int| plain_column(columns@[k]@)).push(c@) =~= Seq::new(
                    (i + 1) as nat,
                    |k: int| plain_column(columns@[k]@),
                ));
            }
            cols.push(c);
            i = i + 1;
        }
        ExportConfig {
            columns: cols,
            time_format: TimeFormat::HhMmSs,
            delimiter: 44u8,
            include_header: true,
            null_value: String::new(),
        }
    }

    /// The default export of the fields of `mapping`, each under the header
    /// that stands beside it.
    pub fn with_column_mapping(mapping: Vec<(&str, &str)>) -> (r: Self)
        ensures
            r.is_default_with(
                Seq::new(mapping@.len(), |i: int| column(mapping@[i].0@, mapping@[i].1@)),
            ),
    {
        let mut cols: Vec<ColumnConfig> = Vec::new();
        let mut i: usize = 0;
        while i < mapping.len()
            invariant
                i <= mapping.len(),
                column_views(cols@) == Seq::new(
                    i as nat,
                    |k: int| column(mapping@[k].0@, mapping@[k].1@),
                ),
            decreases mapping.len() - i,
        {
            let c = ColumnConfig::new(mapping[i].0, mapping[i].1);
            proof {
                crate::text::lemma_views_push(cols@, c);
                assert(Seq::new(i as nat, |k: int| column(mapping@[k].0@, mapping@[k].1@)).push(c@)
                    =~= Seq::new((i + 1) as nat, |k: int| column(mapping@[k].0@, mapping@[k].1@)));
            }
            cols.push(c);
            i = i + 1;
        }
        ExportConfig {
            columns: cols,
            time_format: TimeFormat::HhMmSs,
            delimiter: 44u8,
            include_header: true,
            null_value: String::new(),
        }
    }

    /// The same export, with times in the format `format`.
    pub fn time_format(self, format: TimeFormat) -> (r: Self)
        ensures
            r == (ExportConfig { time_format: format, ..self }),
    {
        let mut c = self;
        c.time_format = format;
        c
    }

    /// The same export, with the delimiter `delim`.
    pub fn delimiter(self, delim: u8) -> (r: Self)
        ensures
            r == (ExportConfig { delimiter: delim, ..self }),
    {
        let mut c = self;
        c.delimiter = delim;
        c
    }

    /// The same export, with `value` for a field without a value.
    pub fn null_value(self, value: &str) -> (r: Self)
        ensures
            r.null_value@ == value@,
            r == (ExportConfig { null_value: r.null_value, ..self }),
    {
        let mut c = self;
        c.null_value = String::from_str(value);
        c
    }

    /// The columns of the default export.
    pub fn default_columns() -> (r: Vec<ColumnConfig>)
        ensures
            column_views(r@) == default_column_views(),
    {
        let mut cols: Vec<ColumnConfig> = Vec::new();
        cols.push(ColumnConfig::new("run_number", "run_number"));
        cols.push(ColumnConfig::new("block", "block"));
        cols.push(ColumnConfig::new("start_place", "start_place"));
        cols.push(ColumnConfig::new("end_place", "end_place"));
        cols.push(ColumnConfig::new("start_time", "start_time"));
        cols.push(ColumnConfig::new("end_time", "end_time"));
        cols.push(ColumnConfig::new("trip_id", "trip_id"));
        cols.push(ColumnConfig::new("depot", "depot"));
        cols.push(ColumnConfig::new("vehicle_class", "vehicle_class"));
        cols.push(ColumnConfig::new("vehicle_type", "vehicle_type"));
        cols.push(ColumnConfig::new("start_lat", "start_lat"));
        cols.push(ColumnConfig::new("start_lon", "start_lon"));
        cols.push(ColumnConfig::new("end_lat", "end_lat"));
        cols.push(ColumnConfig::new("end_lon", "end_lon"));
        cols.push(ColumnConfig::new("route_shape_id", "route_shape_id"));
        proof {
            assert(column_views(cols@) =~= default_column_views());
        }
        cols
    }
}

/// The values of the included columns for `row`, in the order of the columns.
pub open spec fn record_texts(
    columns: Seq<ColumnConfig>,
    format: TimeFormat,
    null_value: Seq<char>,
    row: ScheduleRow,
) -> Seq<Seq<char>>
    decreases columns.len(),
{
    if columns.len() == 0 {
        Seq::empty()
    } else if columns.last().included {
        record_texts(columns.drop_last(), format, null_value, row).push(
            match field_text(format, row, columns.last().field@) {
                Some(t) => t,
                None => null_value,
            },
        )
    } else {
        record_texts(columns.drop_last(), format, null_value, row)
    }
}

/// The headers of the included columns, in the order of the columns.
pub open spec fn header_texts(columns: Seq<ColumnConfig>) -> Seq<Seq<char>>
    decreases columns.len(),
{
    if columns.len() == 0 {
        Seq::empty()
    } else if columns.last().included {
        header_texts(columns.drop_last()).push(columns.last().header@)
    } else {
        header_texts(columns.drop_last())
    }
}

/// The records of the first `n` rows.
pub open spec fn row_records(config: ExportConfig, rows: Seq<ScheduleRow>, n: int) -> Seq<
    Seq<Seq<char>>,
> {
    Seq::new(
        n as nat,
        |i: int| record_texts(config.columns@, config.time_format, config.null_value@, rows[i]),
    )
}

/// The records of an export: the header row, where one is wanted, and one
/// record for each row.
pub open spec fn export_records(config: ExportConfig, rows: Seq<ScheduleRow>) -> Seq<
    Seq<Seq<char>>,
> {
    (if config.include_header {
        seq![header_texts(config.columns@)]
    } else {
        Seq::empty()
    }) + row_records(config, rows, rows.len() as int)
}

/// The texts of a record.
pub open spec fn texts(record: Seq<String>) -> Seq<Seq<char>> {
    crate::text::views(record)
}

/// The texts of records.
pub open spec fn all_texts(records: Seq<Vec<String>>) -> Seq<Seq<Seq<char>>> {
    Seq::new(records.len(), |i: int| texts(records[i]@))
}

/// Writes the decimal places of a coordinate.
fn fraction_string(fraction: u64, width: u32) -> (r: String)
    ensures
        r@ == fraction_digits(fraction as nat, width as nat),
    decreases width,
{
    if width == 0 || fraction == 0 {
        String::new()
    } else if fraction % 10 == 0 {
        fraction_string(fraction / 10, width - 1)
    } else {
        crate::text::u64_to_decimal_padded(fraction, width)
    }
}

/// Writes a coordinate in degrees.
pub fn coordinate_string(value: i32) -> (r: String)
    ensures
        r@ == coordinate_text(value),
{
    let magnitude: u64 = if value < 0 {
        (-(value as i64)) as u64
    } else {
        value as u64
    };
    proof {
        reveal_strlit("-");
        reveal_strlit("");
        reveal_strlit(".");
    }
    let mut s = String::from_str(
        if value < 0 {
            "-"
        } else {
            ""
        },
    );
    let ghost sign = s@;
    s.append(u64_to_decimal(magnitude / 10_000_000).as_str());
    let ghost head = s@;
    let fraction = fraction_string(magnitude % 10_000_000, 7);
    if fraction.as_str().unicode_len() > 0 {
        let mut tail = String::from_str(".");
        tail.append(fraction.as_str());
        s.append(tail.as_str());
        proof {
            assert("."@ =~= seq!['.']);
        }
    } else {
        proof {
            assert(head + Seq::<char>::empty() =~= head);
        }
    }
    proof {
        if value < 0 {
            assert(sign =~= seq!['-']);
        } else {
            assert(sign =~= Seq::<char>::empty());
        }
    }
    s
}

/// The number that a part of a time denotes, and 0 where it denotes none.
fn part_number(time: &str, from: usize, to: usize) -> (r: u64)
    requires
        from <= to <= time@.len(),
    ensures
        r == part_value(time@.subrange(from as int, to as int)),
{
    match parse_u32_text(time.substring_char(from, to)) {
        Some(v) => v as u64,
        None => 0,
    }
}

/// Writes a CSV export of schedules.
#[derive(Debug)]
pub struct CsvExporter {
    /// What is written.
    pub config: ExportConfig,
}

impl Default for CsvExporter {
    fn default() -> (r: Self)
        ensures
            r.config.is_default_with(default_column_views()),
    {
        Self::default_config()
    }
}

impl CsvExporter {
    /// An exporter that writes what `config` says.
    pub fn new(config: ExportConfig) -> (r: Self)
        ensures
            r.config == config,
    {
        CsvExporter { config }
    }

    /// An exporter of the default export.
    pub fn default_config() -> (r: Self)
        ensures
            r.config.is_default_with(default_column_views()),
    {
        CsvExporter { config: ExportConfig::default() }
    }

    /// Writes a time in the format of the export.
    pub fn format_time(&self, time: &str) -> (r: String)
        ensures
            r@ == spec_format_time(self.config.time_format, time@),
    {
        let n = time.unicode_len();
        let c1 = find_colon_from(time, 0);
        proof {
            reveal_strlit(":");
            assert(":"@ =~= seq![':']);
        }
        match self.config.time_format {
            TimeFormat::HhMmSs => {
                if c1 < n {
                    String::from_str(time)
                } else {
                    match parse_u32_text(time) {
                        Some(s) => seconds_to_time_string(s),
                        None => String::from_str(time),
                    }
                }
            },
            TimeFormat::HhMm => {
                if c1 < n {
                    let c2 = find_colon_from(time, c1 + 1);
                    let mut s = String::from_str(time.substring_char(0, c1));
                    s.append(":");
                    s.append(time.substring_char(c1 + 1, c2));
                    s
                } else {
                    match parse_u32_text(time) {
                        Some(secs) => {
                            let mut s = u64_to_decimal2((secs / 3600) as u64);
                            s.append(":");
                            s.append(u64_to_decimal2(((secs % 3600) / 60) as u64).as_str());
                            s
                        },
                        None => String::from_str(time),
                    }
                }
            },
            TimeFormat::Seconds => {
                if c1 >= n {
                    return String::from_str(time);
                }
                let c2 = find_colon_from(time, c1 + 1);
                if c2 >= n {
                    let h = part_number(time, 0, c1);
                    let m = part_number(time, c1 + 1, n);
                    return u64_to_decimal(h * 3600 + m * 60);
                }
                let c3 = find_colon_from(time, c2 + 1);
                if c3 >= n {
                    let h = part_number(time, 0, c1);
                    let m = part_number(time, c1 + 1, c2);
                    let s = part_number(time, c2 + 1, n);
                    return u64_to_decimal(h * 3600 + m * 60 + s);
                }
                String::from_str(time)
            },
        }
    }

    /// The text of an optional time.
    fn time_value(&self, time: &Option<String>) -> (r: Option<String>)
        ensures
            opt_text(r) == opt_time_text(self.config.time_format, *time),
    {
        match time {
            Some(t) => Some(self.format_time(t.as_str())),
            None => None,
        }
    }

    /// The value of the field `field` of `row`: as the row holds it, a time
    /// in the format of the export, a coordinate in degrees, the kind of row
    /// by its name; and the null value where the row has none or the field
    /// is not known.
    pub fn get_field_value(&self, row: &ScheduleRow, field: &str) -> (r: String)
        ensures
            r@ == (match field_text(self.config.time_format, *row, field@) {
                Some(t) => t,
                None => self.config.null_value@,
            }),
    {
        let value: Option<String> = if str_eq(field, "run_number") {
            clone_opt(&row.run_number)
        } else if str_eq(field, "block") {
            clone_opt(&row.block)
        } else if str_eq(field, "start_place") {
            clone_opt(&row.start_place)
        } else if str_eq(field, "end_place") {
            clone_opt(&row.end_place)
        } else if str_eq(field, "start_time") {
            self.time_value(&row.start_time)
        } else if str_eq(field, "end_time") {
            self.time_value(&row.end_time)
        } else if str_eq(field, "trip_id") {
            clone_opt(&row.trip_id)
        } else if str_eq(field, "depot") {
            clone_opt(&row.depot)
        } else if str_eq(field, "vehicle_class") {
            clone_opt(&row.vehicle_class)
        } else if str_eq(field, "vehicle_type") {
            clone_opt(&row.vehicle_type)
        } else if str_eq(field, "start_lat") {
            coordinate_value(row.start_lat)
        } else if str_eq(field, "start_lon") {
            coordinate_value(row.start_lon)
        } else if str_eq(field, "end_lat") {
            coordinate_value(row.end_lat)
        } else if str_eq(field, "end_lon") {
            coordinate_value(row.end_lon)
        } else if str_eq(field, "route_shape_id") {
            clone_opt(&row.route_shape_id)
        } else if str_eq(field, "row_type") {
            Some(
                String::from_str(
                    match row.row_type {
                        RowType::Revenue => "revenue",
                        RowType::PullOut => "pullout",
                        RowType::PullIn => "pullin",
                        RowType::Deadhead => "deadhead",
                        RowType::Break => "break",
                        RowType::Relief => "relief",
                        RowType::Layover => "layover",
                    },
                ),
            )
        } else if str_eq(field, "duty_id") {
            clone_opt(&row.duty_id)
        } else if str_eq(field, "shift_id") {
            clone_opt(&row.shift_id)
        } else if str_eq(field, "route_short_name") {
            clone_opt(&row.route_short_name)
        } else if str_eq(field, "headsign") {
            clone_opt(&row.headsign)
        } else {
            None
        };
        match value {
            Some(v) => v,
            None => self.config.null_value.clone(),
        }
    }

    /// The record of `row`: the values of the included columns.
    pub fn row_to_record(&self, row: &ScheduleRow) -> (r: Vec<String>)
        ensures
            texts(r@) == record_texts(
                self.config.columns@,
                self.config.time_format,
                self.config.null_value@,
                *row,
            ),
    {
        let mut record: Vec<String> = Vec::new();
        let columns = &self.config.columns;
        let mut i: usize = 0;
        proof {
            assert(texts(record@) =~= Seq::empty());
        }
        while i < columns.len()
            invariant
                i <= columns.len(),
                columns == &self.config.columns,
                texts(record@) == record_texts(
                    columns@.take(i as int),
                    self.config.time_format,
                    self.config.null_value@,
                    *row,
                ),
            decreases columns.len() - i,
        {
            proof {
                assert(columns@.take(i + 1).drop_last() =~= columns@.take(i as int));
            }
            if columns[i].included {
                let value = self.get_field_value(row, columns[i].field.as_str());
                proof {
                    crate::text::lemma_views_push(record@, value);
                }
                record.push(value);
            }
            i = i + 1;
        }
        proof {
            assert(columns@.take(columns.len() as int) =~= columns@);
        }
        record
    }

    /// The header row: the headers of the included columns.
    pub fn header_record(&self) -> (r: Vec<String>)
        ensures
            texts(r@) == header_texts(self.config.columns@),
    {
        let mut record: Vec<String> = Vec::new();
        let columns = &self.config.columns;
        let mut i: usize = 0;
        proof {
            assert(texts(record@) =~= Seq::empty());
        }
        while i < columns.len()
            invariant
                i <= columns.len(),
                columns == &self.config.columns,
                texts(record@) == header_texts(columns@.take(i as int)),
            decreases columns.len() - i,
        {
            proof {
                assert(columns@.take(i + 1).drop_last() =~= columns@.take(i as int));
            }
            if columns[i].included {
                let value = columns[i].header.clone();
                proof {
                    crate::text::lemma_views_push(record@, value);
                }
                record.push(value);
            }
            i = i + 1;
        }
        proof {
            assert(columns@.take(columns.len() as int) =~= columns@);
        }
        record
    }

    /// The records of the export of `schedule`: the header row, where one
    /// is wanted, and one record for each row.
    pub fn records(&self, schedule: &Schedule) -> (r: Vec<Vec<String>>)
        ensures
            all_texts(r@) == export_records(self.config, schedule.rows@),
    {
        let mut out: Vec<Vec<String>> = Vec::new();
        if self.config.include_header {
            out.push(self.header_record());
        }
        let ghost head = all_texts(out@);
        proof {
            assert(head =~= (if self.config.include_header {
                seq![header_texts(self.config.columns@)]
            } else {
                Seq::empty()
            }));
            assert(head + row_records(self.config, schedule.rows@, 0) =~= head);
        }
        let mut i: usize = 0;
        while i < schedule.rows.len()
            invariant
                i <= schedule.rows.len(),
                all_texts(out@) == head + row_records(self.config, schedule.rows@, i as int),
            decreases schedule.rows.len() - i,
        {
            let record = self.row_to_record(&schedule.rows[i]);
            let ghost before = out@;
            out.push(record);
            proof {
                assert(all_texts(out@) =~= all_texts(before).push(texts(record@)));
                assert(row_records(self.config, schedule.rows@, i as int).push(texts(record@))
                    =~= row_records(self.config, schedule.rows@, i + 1));
                assert(all_texts(out@) =~= head + row_records(self.config, schedule.rows@, i + 1));
            }
            i = i + 1;
        }
        out
    }
}

impl CsvExporter {
    /// The export of `schedule` as CSV: the CSV text of the header row,
    /// where one is wanted, and of one record for each row. It fails exactly
    /// where the `csv` crate cannot write one of these records.
    pub fn export_to_bytes(&self, schedule: &Schedule) -> (r: Result<Vec<u8>, ExportError>)
        ensures
            r is Ok <==> csv_text(export_records(self.config, schedule.rows@)) is Some,
            r is Ok ==> csv_text(export_records(self.config, schedule.rows@)) == Some(r->Ok_0@),
    {
        let records = self.records(schedule);
        write_csv(&records)
    }

    /// The export of `schedule` as CSV text: the text whose UTF-8 bytes are
    /// the CSV text of the records. It fails exactly where a record cannot
    /// be written or the bytes written are no UTF-8.
    pub fn export_to_string(&self, schedule: &Schedule) -> (r: Result<String, ExportError>)
        ensures
            r is Ok <==> csv_text(export_records(self.config, schedule.rows@)) is Some
                && vstd::utf8::valid_utf8(
                csv_text(export_records(self.config, schedule.rows@)).unwrap(),
            ),
            r is Ok ==> csv_text(export_records(self.config, schedule.rows@)) == Some(
                vstd::utf8::encode_utf8(r->Ok_0@),
            ),
    {
        match self.export_to_bytes(schedule) {
            Ok(bytes) => decode_written(bytes),
            Err(e) => Err(e),
        }
    }
}

/// The text of an optional coordinate.
fn coordinate_value(value: Option<i32>) -> (r: Option<String>)
    ensures
        opt_text(r) == opt_coordinate_text(value),
{
    match value {
        Some(v) => Some(coordinate_string(v)),
        None => None,
    }
}

} // verus!
