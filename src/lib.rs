//! Multi-format table ingestion: format detection, per-format readers that
//! normalise every cell to a display string, and the message protocol that
//! delivers load results to a single consumer.
pub mod app;
pub mod enums;
pub mod format;
pub mod frame;
pub mod laws;
pub mod models;
pub mod read_file;
pub mod spreadsheet;

pub use app::AppModel;
pub use enums::{ChannelMessage, ThemeMode};
pub use format::{detect_format, FileFormat, LoadError};
pub use frame::{frame_to_table, read_csv, read_json, read_parquet};
pub use models::{is_absent, TableStruct};
pub use read_file::{load_data_from_file, read_file, FileContents};
pub use spreadsheet::{read_excel, sheet_to_table, Cell, SHEET_INDEX};
