//! Export: which columns are written, under which headers, in which format.

pub mod csv_text;
pub mod generic_csv;
pub mod presets;

pub use csv_text::ExportError;
pub use generic_csv::{ColumnConfig, CsvExporter, ExportConfig, TimeFormat};
pub use presets::ExportPreset;
