use polars::prelude::{AnyValue, CsvReader, DataFrame, JsonReader, SerReader, Series};
use vstd::prelude::*;

use crate::format::{result_view, LoadError, LoadErrorView};
use crate::models::{strings_view, TableStruct, TableView};

verus! {

/// polars' `DataFrame`; its contents are seen through `frame_names` and
/// `frame_cells`.
#[verifier::external_type_specification]
#[verifier::external_body]
pub struct ExDataFrame(DataFrame);

/// polars' `Series`, one column of a frame; declared so that the frame's
/// indexing impls can be named.
#[verifier::external_type_specification]
#[verifier::external_body]
pub struct ExSeries(Series);

/// The column names of a frame, in declaration order.
pub uninterp spec fn frame_names(df: DataFrame) -> Seq<Seq<char>>;

/// The cells of a frame, column by column, each column as long as its
/// series: `None` for a null, otherwise the value's display text (strings and
/// categories verbatim). Floats are written in polars' process-wide float
/// format, which this library never changes.
pub uninterp spec fn frame_cells(df: DataFrame) -> Seq<Seq<Option<Seq<char>>>>;

/// What polars' CSV reader makes of some bytes: its message, or the names and
/// cells of the frame.
pub uninterp spec fn csv_parse(bytes: Seq<u8>) -> Result<
    (Seq<Seq<char>>, Seq<Seq<Option<Seq<char>>>>),
    Seq<char>,
>;

/// What polars' JSON reader makes of some bytes.
pub uninterp spec fn json_parse(bytes: Seq<u8>) -> Result<
    (Seq<Seq<char>>, Seq<Seq<Option<Seq<char>>>>),
    Seq<char>,
>;

/// How a parse outcome ties to the frame handed back.
pub open spec fn parsed_as(
    p: Result<(Seq<Seq<char>>, Seq<Seq<Option<Seq<char>>>>), Seq<char>>,
    r: Result<DataFrame, String>,
) -> bool {
    match p {
        Err(m) => r is Err && r->Err_0@ == m,
        Ok(c) => r is Ok && frame_names(r->Ok_0) == c.0 && frame_cells(r->Ok_0) == c.1,
    }
}

/// Relies on polars' `CsvReader::new(..).with_n_threads(Some(1)).finish()`
/// over an in-memory cursor. On one thread the input is parsed as a single
/// chunk, so the frame and any error message depend on the bytes alone.
/// Malformed input comes back as an error: the reader's own panics sit on
/// the date-parsing path, which stays off (no `with_try_parse_dates`).
#[verifier::external_body]
fn csv_frame(bytes: &Vec<u8>) -> (r: Result<DataFrame, String>)
    ensures
        parsed_as(csv_parse(bytes@), r),
{
    let reader = CsvReader::new(std::io::Cursor::new(bytes.clone())).with_n_threads(Some(1));
    reader.finish().map_err(|e| e.to_string())
}

/// Relies on polars' `JsonReader::new(..).finish()` over an in-memory cursor,
/// which depends on the bytes alone. It infers the schema from the first
/// records and panics when the top-level array has none, so that input is
/// left out.
#[verifier::external_body]
fn json_frame(bytes: &Vec<u8>) -> (r: Result<DataFrame, String>)
    requires
        !empty_json_array(bytes@),
    ensures
        parsed_as(json_parse(bytes@), r),
{
    JsonReader::new(std::io::Cursor::new(bytes.clone())).finish().map_err(|e| e.to_string())
}

/// Relies on polars' `DataFrame::get_column_names`: one name per column, in
/// order.
#[verifier::external_body]
fn column_names(df: &DataFrame) -> (r: Vec<String>)
    ensures
        strings_view(r@) == frame_names(*df),
        frame_cells(*df).len() == r.len(),
{
    df.get_column_names().iter().map(|s| s.to_string()).collect()
}

/// Relies on polars' `DataFrame::height`: the length of the first column, 0
/// without columns.
#[verifier::external_body]
fn frame_height(df: &DataFrame) -> (n: usize)
    ensures
        n == column_height(frame_cells(*df)),
{
    df.height()
}

/// Relies on polars' `Series::len` on the frame's `c`-th column.
#[verifier::external_body]
fn column_len(df: &DataFrame, c: usize) -> (n: usize)
    requires
        c < frame_cells(*df).len(),
    ensures
        n == frame_cells(*df)[c as int].len(),
{
    df.get_columns()[c].len()
}

/// Relies on polars' `Series::get`: the value at a row of a column, `None`
/// for a null; strings and categories through `AnyValue::get_str`, without
/// the quotes that their display adds, other values through their display.
#[verifier::external_body]
fn frame_cell(df: &DataFrame, c: usize, i: usize) -> (r: Option<String>)
    requires
        c < frame_cells(*df).len(),
        i < frame_cells(*df)[c as int].len(),
    ensures
        match r {
            None => frame_cells(*df)[c as int][i as int] is None,
            Some(s) => frame_cells(*df)[c as int][i as int] == Some(s@),
        },
{
    match df.get_columns()[c].get(i) {
        Ok(AnyValue::Null) | Err(_) => None,
        Ok(v) => match v.get_str() {
            Some(s) => Some(s.to_string()),
            None => Some(v.to_string()),
        },
    }
}

/// A null becomes the empty string; any other value keeps its text.
pub open spec fn value_text(v: Option<Seq<char>>) -> Seq<char> {
    match v {
        None => Seq::empty(),
        Some(s) => s,
    }
}

/// Number of rows of column-major cells.
pub open spec fn column_height(cols: Seq<Seq<Option<Seq<char>>>>) -> nat {
    if cols.len() == 0 { 0 } else { cols[0].len() }
}

/// The cell at row `i` of column `j`; a column shorter than the frame, or
/// one past the last, holds nulls there.
pub open spec fn cell_at(cols: Seq<Seq<Option<Seq<char>>>>, j: int, i: int) -> Option<Seq<char>> {
    if 0 <= j < cols.len() && 0 <= i < cols[j].len() {
        cols[j][i]
    } else {
        None
    }
}

/// Row `i` of column-major cells, one text per column.
pub open spec fn frame_row(names: Seq<Seq<char>>, cols: Seq<Seq<Option<Seq<char>>>>, i: int) -> Seq<Seq<char>> {
    Seq::new(names.len(), |j: int| value_text(cell_at(cols, j, i)))
}

/// The table of a frame: its names as headers, its cells read row-major.
pub open spec fn frame_table(names: Seq<Seq<char>>, cols: Seq<Seq<Option<Seq<char>>>>) -> TableView {
    TableView {
        columns: names,
        rows: Seq::new(column_height(cols), |i: int| frame_row(names, cols, i)),
    }
}

/// The outcome of a frame-based reader on a parse outcome.
pub open spec fn frame_outcome(
    p: Result<(Seq<Seq<char>>, Seq<Seq<Option<Seq<char>>>>), Seq<char>>,
) -> Result<TableView, LoadErrorView> {
    match p {
        Err(m) => Err(LoadErrorView::ReadFailure(m)),
        Ok(c) => Ok(frame_table(c.0, c.1)),
    }
}

/// Turns a frame into a table: the frame's column names, in order, become
/// the headers, and its cells are read row by row, one text per column, a
/// null becoming `""`. There are as many rows as the first column is long; a
/// shorter column reads as `""` past its end.
pub fn frame_to_table(df: &DataFrame) -> (t: TableStruct)
    ensures
        t@ == frame_table(frame_names(*df), frame_cells(*df)),
        t.wf(),
{
    let columns = column_names(df);
    let width = columns.len();
    let height = frame_height(df);
    let ghost names = frame_names(*df);
    let ghost cols = frame_cells(*df);
    let mut rows: Vec<Vec<String>> = Vec::new();
    let mut i: usize = 0;
    while i < height
        invariant
            0 <= i <= height,
            names == frame_names(*df),
            cols == frame_cells(*df),
            width == names.len(),
            cols.len() == names.len(),
            height == column_height(cols),
            crate::models::rows_view(rows@) =~= Seq::new(i as nat, |k: int| frame_row(names, cols, k)),
        decreases height - i,
    {
        let mut row: Vec<String> = Vec::new();
        let mut j: usize = 0;
        while j < width
            invariant
                0 <= j <= width,
                i < height,
                width == names.len(),
                cols.len() == names.len(),
                cols == frame_cells(*df),
                strings_view(row@) =~= frame_row(names, cols, i as int).take(j as int),
            decreases width - j,
        {
            let text = if i < column_len(df, j) {
                match frame_cell(df, j, i) {
                    None => String::new(),
                    Some(s) => s,
                }
            } else {
                String::new()
            };
            let ghost before = row@;
            let ghost tv = text@;
            row.push(text);
            assert(strings_view(row@) =~= strings_view(before).push(tv));
            assert(frame_row(names, cols, i as int).take(j as int + 1) =~= frame_row(
                names,
                cols,
                i as int,
            ).take(j as int).push(tv));
            j += 1;
        }
        assert(frame_row(names, cols, i as int).take(j as int) =~= frame_row(names, cols, i as int));
        let ghost before = rows@;
        let ghost rv = strings_view(row@);
        rows.push(row);
        assert(crate::models::rows_view(rows@) =~= crate::models::rows_view(before).push(rv));
        i += 1;
    }
    TableStruct { columns, rows }
}

/// Runs a frame-based reader's outcome through `frame_to_table`.
fn frame_result(r: &Result<DataFrame, String>) -> (out: Result<TableStruct, LoadError>)
    ensures
        result_view(out) == decoded_outcome(*r),
        out is Ok ==> out->Ok_0.wf(),
{
    match r {
        Ok(df) => Ok(frame_to_table(df)),
        Err(m) => Err(LoadError::ReadFailure(m.clone())),
    }
}

/// The outcome of a reader on a frame it decoded, or on its message.
pub open spec fn decoded_outcome(r: Result<DataFrame, String>) -> Result<TableView, LoadErrorView> {
    match r {
        Err(m) => Err(LoadErrorView::ReadFailure(m@)),
        Ok(df) => Ok(frame_table(frame_names(df), frame_cells(df))),
    }
}

/// Reads CSV bytes (header row first). A parse failure is a `ReadFailure`
/// carrying the parser's message.
pub fn read_csv(bytes: &Vec<u8>) -> (r: Result<TableStruct, LoadError>)
    ensures
        result_view(r) == frame_outcome(csv_parse(bytes@)),
        r is Ok ==> r->Ok_0.wf(),
{
    let decoded = csv_frame(bytes);
    frame_result(&decoded)
}

/// Reads a Parquet file, given as what decoding it into a frame gave. A
/// decoding failure is a `ReadFailure` carrying its message.
pub fn read_parquet(decoded: &Result<DataFrame, String>) -> (r: Result<TableStruct, LoadError>)
    ensures
        result_view(r) == decoded_outcome(*decoded),
        r is Ok ==> r->Ok_0.wf(),
{
    frame_result(decoded)
}

/// JSON whitespace: space, tab, line feed, carriage return.
pub open spec fn is_json_ws(b: u8) -> bool {
    b == 0x20 || b == 0x09 || b == 0x0a || b == 0x0d
}

/// Where a scan for `ws* [ ws* ] ws*` stands: 0 before `[`, 1 inside, 2
/// after `]`, 3 when the bytes are something else.
pub open spec fn empty_array_step(state: int, b: u8) -> int {
    if state == 3 || is_json_ws(b) {
        state
    } else if state == 0 && b == 0x5b {
        1
    } else if state == 1 && b == 0x5d {
        2
    } else {
        3
    }
}

pub open spec fn empty_array_state(s: Seq<u8>) -> int
    decreases s.len(),
{
    if s.len() == 0 {
        0
    } else {
        empty_array_step(empty_array_state(s.drop_last()), s.last())
    }
}

/// The bytes are a JSON array with no items, `[]` with optional whitespace.
pub open spec fn empty_json_array(s: Seq<u8>) -> bool {
    empty_array_state(s) == 2
}

/// Whether the bytes are a JSON array with no items.
fn is_empty_json_array(bytes: &Vec<u8>) -> (r: bool)
    ensures
        r == empty_json_array(bytes@),
{
    let mut state: u8 = 0;
    let mut i: usize = 0;
    while i < bytes.len()
        invariant
            0 <= i <= bytes.len(),
            state as int == empty_array_state(bytes@.take(i as int)),
            state <= 3,
        decreases bytes.len() - i,
    {
        let b = bytes[i];
        assert(bytes@.take(i as int + 1).drop_last() =~= bytes@.take(i as int));
        let ws = b == 0x20 || b == 0x09 || b == 0x0a || b == 0x0d;
        if state == 3 || ws {
        } else if state == 0 && b == 0x5b {
            state = 1;
        } else if state == 1 && b == 0x5d {
            state = 2;
        } else {
            state = 3;
        }
        i += 1;
    }
    assert(bytes@.take(i as int) =~= bytes@);
    state == 2
}

/// What reading JSON bytes gives: an array with no items is an empty table;
/// anything else goes through the parser.
pub open spec fn json_outcome(bytes: Seq<u8>) -> Result<TableView, LoadErrorView> {
    if empty_json_array(bytes) {
        Ok(TableView { columns: Seq::empty(), rows: Seq::empty() })
    } else {
        frame_outcome(json_parse(bytes))
    }
}

/// Reads JSON bytes (an array of records). An array with no records gives a
/// table with no columns and no rows. A parse failure is a `ReadFailure`
/// carrying the parser's message.
pub fn read_json(bytes: &Vec<u8>) -> (r: Result<TableStruct, LoadError>)
    ensures
        result_view(r) == json_outcome(bytes@),
        r is Ok ==> r->Ok_0.wf(),
{
    if is_empty_json_array(bytes) {
        let t = TableStruct { columns: Vec::new(), rows: Vec::new() };
        assert(t@.columns =~= Seq::<Seq<char>>::empty());
        assert(t@.rows =~= Seq::<Seq<Seq<char>>>::empty());
        return Ok(t);
    }
    let decoded = json_frame(bytes);
    frame_result(&decoded)
}

} // verus!
