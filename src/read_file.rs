use calamine::{DataType, Range};
use polars::prelude::DataFrame;
use vstd::prelude::*;

use crate::enums::{ChannelMessage, MessageView};
use crate::format::{detect_format, format_of_path, FileFormat, LoadError, LoadErrorView};
use crate::frame::{csv_parse, decoded_outcome, frame_outcome, json_outcome, read_csv, read_json, read_parquet};
use crate::models::{TableStruct, TableView};
use crate::spreadsheet::{excel_outcome, read_excel};

verus! {

/// What a load reads: the file's bytes; for a Parquet file, what decoding it
/// into a frame gave; for a workbook, what opening it and taking its first
/// worksheet gave.
pub enum FileContents {
    Bytes(Vec<u8>),
    Frame(Result<DataFrame, String>),
    Workbook(Result<Option<Range<DataType>>, String>),
}

pub open spec fn mismatch_text() -> Seq<char> {
    seq![
        'C', 'o', 'n', 't', 'e', 'n', 't', 's', ' ', 'd', 'o', ' ', 'n', 'o', 't', ' ', 'm', 'a',
        't', 'c', 'h', ' ', 't', 'h', 'e', ' ', 'f', 'i', 'l', 'e', ' ', 'f', 'o', 'r', 'm', 'a',
        't'
    ]
}

/// What loading `contents` under the name `path` gives. A workbook is read
/// from its first sheet, a Parquet file from its decoded frame, CSV and JSON
/// from the file's bytes.
pub open spec fn load_outcome(path: Seq<char>, contents: FileContents) -> Result<TableView, LoadErrorView> {
    match (format_of_path(path), contents) {
        (None, _) => Err(LoadErrorView::UnsupportedFormat),
        (Some(FileFormat::Csv), FileContents::Bytes(b)) => frame_outcome(csv_parse(b@)),
        (Some(FileFormat::Parquet), FileContents::Frame(f)) => decoded_outcome(f),
        (Some(FileFormat::Json), FileContents::Bytes(b)) => json_outcome(b@),
        (Some(FileFormat::Xlsx), FileContents::Workbook(w)) => excel_outcome(w),
        _ => Err(LoadErrorView::ReadFailure(mismatch_text())),
    }
}

/// Loads a file with the reader that its path's extension picks. An
/// unsupported extension fails before any reader runs; contents of the wrong
/// kind for the format are a `ReadFailure`. Every failure is reported as one
/// message string; on success every row is as wide as the header.
pub fn load_data_from_file(file_path: &str, contents: &FileContents) -> (r: Result<TableStruct, String>)
    ensures
        match load_outcome(file_path@, *contents) {
            Ok(t) => r is Ok && r->Ok_0@ == t,
            Err(e) => r is Err && r->Err_0@ == e.message(),
        },
        r is Ok ==> r->Ok_0.wf(),
{
    let loaded = match (detect_format(file_path), contents) {
        (Err(e), _) => Err(e),
        (Ok(FileFormat::Csv), FileContents::Bytes(b)) => read_csv(b),
        (Ok(FileFormat::Parquet), FileContents::Frame(f)) => read_parquet(f),
        (Ok(FileFormat::Json), FileContents::Bytes(b)) => read_json(b),
        (Ok(FileFormat::Xlsx), FileContents::Workbook(w)) => read_excel(w),
        _ => {
            let m = String::from_str("Contents do not match the file format");
            proof {
                reveal_strlit("Contents do not match the file format");
                assert(m@ =~= mismatch_text());
            }
            Err(LoadError::ReadFailure(m))
        },
    };
    match loaded {
        Ok(t) => Ok(t),
        Err(e) => Err(e.message()),
    }
}

/// The message that ends a load: `ReadFile` with the table, or
/// `ReadFileError` with the failure's text.
pub fn read_file(file_path: &str, contents: &FileContents) -> (m: ChannelMessage)
    ensures
        match load_outcome(file_path@, *contents) {
            Ok(t) => m@ == MessageView::ReadFile(t),
            Err(e) => m@ == MessageView::ReadFileError(e.message()),
        },
{
    match load_data_from_file(file_path, contents) {
        Ok(t) => ChannelMessage::ReadFile(t),
        Err(e) => ChannelMessage::ReadFileError(e),
    }
}

} // verus!
