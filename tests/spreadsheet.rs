use calamine::{DataType, Range, Reader, Xlsx};
use da_viewer::{load_data_from_file, read_excel, sheet_to_table, Cell, FileContents, LoadError};

fn first_sheet(bytes: &[u8]) -> Result<Option<Range<DataType>>, String> {
    let mut wb: Xlsx<_> = Xlsx::new(std::io::Cursor::new(bytes.to_vec())).map_err(|e| e.to_string())?;
    match wb.worksheet_range_at(da_viewer::SHEET_INDEX) {
        None => Ok(None),
        Some(r) => r.map(Some).map_err(|e| e.to_string()),
    }
}

fn text(s: &str) -> Cell {
    Cell::String(s.to_string())
}

#[test]
fn sheet_cells_are_stringified_by_type() {
    let cells = vec![
        vec![text("name"), text("n"), text("ok"), text("x")],
        vec![text("a"), Cell::Int(-42), Cell::Bool(true), Cell::Float("1.5".to_string())],
        vec![Cell::Empty, Cell::Int(0), Cell::Bool(false), Cell::Int(1234567890)],
    ];
    let t = sheet_to_table(&cells).ok().unwrap();
    assert_eq!(t.columns, vec!["name", "n", "ok", "x"]);
    assert_eq!(t.rows, vec![vec!["a", "-42", "true", "1.5"], vec!["null", "0", "false", "1234567890"]]);
}

#[test]
fn empty_sheet_cell_reads_as_null() {
    let cells = vec![vec![text("a"), text("b")], vec![Cell::Int(1), Cell::Empty]];
    let t = sheet_to_table(&cells).ok().unwrap();
    assert_eq!(t.rows, vec![vec!["1", "null"]]);
}

#[test]
fn empty_header_cell_reads_as_empty_string() {
    let cells = vec![vec![Cell::Empty, text("b")]];
    let t = sheet_to_table(&cells).ok().unwrap();
    assert_eq!(t.columns, vec!["", "b"]);
    assert!(t.rows.is_empty());
}

#[test]
fn extreme_integers_are_written_in_decimal() {
    let cells = vec![vec![text("v"), text("w")], vec![Cell::Int(i64::MIN), Cell::Int(i64::MAX)]];
    let t = sheet_to_table(&cells).ok().unwrap();
    assert_eq!(t.rows, vec![vec!["-9223372036854775808", "9223372036854775807"]]);
}

#[test]
fn error_cell_fails_whole_sheet() {
    let cells = vec![
        vec![text("a"), text("b")],
        vec![Cell::Int(1), Cell::Int(2)],
        vec![Cell::Int(3), Cell::Error("#DIV/0!".to_string())],
    ];
    match sheet_to_table(&cells) {
        Err(LoadError::CellError(m)) => assert_eq!(m, "#DIV/0!"),
        other => panic!("unexpected {:?}", other),
    }
}

#[test]
fn error_cell_in_header_fails_whole_sheet() {
    let cells = vec![vec![text("a"), Cell::Error("#REF!".to_string())], vec![Cell::Int(1), Cell::Int(2)]];
    assert!(matches!(sheet_to_table(&cells), Err(LoadError::CellError(m)) if m == "#REF!"));
}

#[test]
fn ragged_row_fails() {
    let cells = vec![vec![text("a"), text("b")], vec![Cell::Int(1)]];
    assert!(matches!(sheet_to_table(&cells), Err(LoadError::ReadFailure(_))));
}

#[test]
fn empty_sheet_gives_empty_table() {
    let t = sheet_to_table(&vec![]).ok().unwrap();
    assert!(t.columns.is_empty());
    assert!(t.rows.is_empty());
}

#[test]
fn invalid_workbook_bytes_fail() {
    let sheet = first_sheet(b"not a zip");
    assert!(matches!(read_excel(&sheet), Err(LoadError::ReadFailure(_))));
    assert!(load_data_from_file("book.xlsx", &FileContents::Workbook(sheet)).is_err());
}

fn sample_workbook() -> Vec<u8> {
    let mut wb = rust_xlsxwriter::Workbook::new();
    let ws = wb.add_worksheet();
    ws.write_string(0, 0, "name").unwrap();
    ws.write_string(0, 1, "count").unwrap();
    ws.write_string(0, 2, "flag").unwrap();
    ws.write_string(1, 0, "x").unwrap();
    ws.write_number(1, 1, 2.5).unwrap();
    ws.write_boolean(1, 2, true).unwrap();
    ws.write_string(2, 0, "y").unwrap();
    ws.write_number(2, 1, 3).unwrap();
    wb.save_to_buffer().unwrap()
}

#[test]
fn workbook_first_sheet_is_read() {
    let t = read_excel(&first_sheet(&sample_workbook())).ok().unwrap();
    assert_eq!(t.columns, vec!["name", "count", "flag"]);
    assert_eq!(t.rows, vec![vec!["x", "2.5", "true"], vec!["y", "3", "null"]]);
}

#[test]
fn workbook_loads_the_same_twice() {
    let bytes = sample_workbook();
    let a = load_data_from_file("b.xlsx", &FileContents::Workbook(first_sheet(&bytes))).ok().unwrap();
    let b = load_data_from_file("b.xlsx", &FileContents::Workbook(first_sheet(&bytes))).ok().unwrap();
    assert_eq!(a.columns, b.columns);
    assert_eq!(a.rows, b.rows);
}

#[test]
fn workbook_without_sheet_is_sheet_not_found() {
    assert!(matches!(read_excel(&Ok(None)), Err(LoadError::SheetNotFound)));
}

#[test]
fn every_value_kind_is_dispatched() {
    let cells = vec![
        vec![text("a"), text("b"), text("c"), text("d"), text("e")],
        vec![
            Cell::DateTimeIso("2024-01-02T03:04:05".to_string()),
            Cell::DurationIso("PT1H".to_string()),
            Cell::DateTime("45000.5".to_string()),
            Cell::Duration("0.25".to_string()),
            Cell::Float("-3.75".to_string()),
        ],
    ];
    let t = sheet_to_table(&cells).ok().unwrap();
    assert_eq!(t.rows, vec![vec!["2024-01-02T03:04:05", "PT1H", "45000.5", "0.25", "-3.75"]]);
}
