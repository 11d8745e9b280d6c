use calamine::{DataType, Range};
use vstd::prelude::*;

use crate::format::{result_view, LoadError, LoadErrorView};
use crate::models::{strings_view, TableStruct, TableView};

verus! {

/// calamine's cell value, `calamine::DataType`, carried opaquely inside a
/// range.
#[verifier::external_type_specification]
#[verifier::external_body]
pub struct ExDataType(DataType);

/// calamine's rectangular block of cells, `calamine::Range`; its contents are
/// seen through `range_cells`.
#[verifier::external_type_specification]
#[verifier::external_body]
#[verifier::reject_recursive_types(T)]
pub struct ExRange<T>(Range<T>);

/// One spreadsheet cell, one variant per kind of value a workbook stores.
/// Numeric-backed values (floats, and date-times and durations stored as
/// numbers) arrive already written as their decimal text.
#[derive(Debug, Clone)]
pub enum Cell {
    Empty,
    String(String),
    DateTimeIso(String),
    DurationIso(String),
    Float(String),
    DateTime(String),
    Duration(String),
    Int(i64),
    Bool(bool),
    Error(String),
}

/// The worksheet a workbook is read from: the first one.
pub const SHEET_INDEX: usize = 0;

/// The cells of a worksheet range, row by row.
pub uninterp spec fn range_cells(r: Range<DataType>) -> Seq<Seq<Cell>>;

/// Relies on calamine's `Range::height`: the number of rows.
#[verifier::external_body]
fn range_height(r: &Range<DataType>) -> (n: usize)
    ensures
        n == range_cells(*r).len(),
{
    r.height()
}

/// Relies on calamine's `Range::width`: every row of a range has this many
/// cells.
#[verifier::external_body]
fn range_width(r: &Range<DataType>) -> (n: usize)
    ensures
        forall|i: int| 0 <= i < range_cells(*r).len() ==> #[trigger] range_cells(*r)[i].len() == n,
{
    r.width()
}

/// Relies on calamine's `Index<(usize, usize)>` for `Range`: the cell at a
/// relative row and column, converted variant to variant (a float-backed
/// value to its display text).
#[verifier::external_body]
fn range_cell(r: &Range<DataType>, i: usize, j: usize) -> (c: Cell)
    requires
        i < range_cells(*r).len(),
        j < range_cells(*r)[i as int].len(),
    ensures
        c == range_cells(*r)[i as int][j as int],
{
    match &r[(i, j)] {
        DataType::Empty => Cell::Empty,
        DataType::String(s) => Cell::String(s.clone()),
        DataType::DateTimeIso(s) => Cell::DateTimeIso(s.clone()),
        DataType::DurationIso(s) => Cell::DurationIso(s.clone()),
        DataType::Float(v) => Cell::Float(v.to_string()),
        DataType::DateTime(v) => Cell::DateTime(v.to_string()),
        DataType::Duration(v) => Cell::Duration(v.to_string()),
        DataType::Int(v) => Cell::Int(*v),
        DataType::Bool(b) => Cell::Bool(*b),
        DataType::Error(e) => Cell::Error(e.to_string()),
    }
}

pub open spec fn digit_char(d: nat) -> char {
    if d == 0 { '0' } else if d == 1 { '1' } else if d == 2 { '2' } else if d == 3 { '3' }
    else if d == 4 { '4' } else if d == 5 { '5' } else if d == 6 { '6' } else if d == 7 { '7' }
    else if d == 8 { '8' } else { '9' }
}

/// Decimal digits of a natural number, most significant first.
pub open spec fn decimal(n: nat) -> Seq<char>
    decreases n,
{
    if n < 10 {
        seq![digit_char(n)]
    } else {
        decimal(n / 10) + seq![digit_char(n % 10)]
    }
}

/// Decimal text of an integer, with a leading `-` when negative.
pub open spec fn int_text(i: int) -> Seq<char> {
    if i < 0 {
        seq!['-'] + decimal((-i) as nat)
    } else {
        decimal(i as nat)
    }
}

pub open spec fn bool_text(b: bool) -> Seq<char> {
    if b {
        seq!['t', 'r', 'u', 'e']
    } else {
        seq!['f', 'a', 'l', 's', 'e']
    }
}

pub open spec fn null_text() -> Seq<char> {
    seq!['n', 'u', 'l', 'l']
}

/// Text of a data cell: text, ISO date-time and ISO duration verbatim; the
/// numeric-backed float, date-time and duration as their decimal text.
/// `Err` carries the text of an error-valued cell.
pub open spec fn cell_text(c: Cell) -> Result<Seq<char>, Seq<char>> {
    match c {
        Cell::Empty => Ok(null_text()),
        Cell::String(s) => Ok(s@),
        Cell::DateTimeIso(s) => Ok(s@),
        Cell::DurationIso(s) => Ok(s@),
        Cell::Float(s) => Ok(s@),
        Cell::DateTime(s) => Ok(s@),
        Cell::Duration(s) => Ok(s@),
        Cell::Int(i) => Ok(int_text(i as int)),
        Cell::Bool(b) => Ok(bool_text(b)),
        Cell::Error(m) => Err(m@),
    }
}

/// Text of a header cell: as for data cells, except that an empty header
/// cell is the empty string.
pub open spec fn header_text(c: Cell) -> Result<Seq<char>, Seq<char>> {
    match c {
        Cell::Empty => Ok(Seq::empty()),
        _ => cell_text(c),
    }
}

/// The texts of a row of cells, or the text of its first error cell.
pub open spec fn row_texts(r: Seq<Cell>, header: bool) -> Result<Seq<Seq<char>>, Seq<char>>
    decreases r.len(),
{
    if r.len() == 0 {
        Ok(Seq::empty())
    } else {
        match row_texts(r.drop_last(), header) {
            Err(m) => Err(m),
            Ok(ts) => match (if header { header_text(r.last()) } else { cell_text(r.last()) }) {
                Err(m) => Err(m),
                Ok(t) => Ok(ts.push(t)),
            },
        }
    }
}

pub open spec fn ragged_text() -> Seq<char> {
    seq![
        'R', 'o', 'w', ' ', 'w', 'i', 'd', 't', 'h', ' ', 'd', 'o', 'e', 's', ' ', 'n', 'o',
        't', ' ', 'm', 'a', 't', 'c', 'h', ' ', 't', 'h', 'e', ' ', 'h', 'e', 'a', 'd', 'e', 'r'
    ]
}

/// One data row: it must be as wide as the header, and hold no error cell.
pub open spec fn data_row(r: Seq<Cell>, width: nat) -> Result<Seq<Seq<char>>, LoadErrorView> {
    if r.len() != width {
        Err(LoadErrorView::ReadFailure(ragged_text()))
    } else {
        match row_texts(r, false) {
            Err(m) => Err(LoadErrorView::CellError(m)),
            Ok(ts) => Ok(ts),
        }
    }
}

/// The data rows, in order, stopping at the first failing one.
pub open spec fn data_rows(rs: Seq<Seq<Cell>>, width: nat) -> Result<
    Seq<Seq<Seq<char>>>,
    LoadErrorView,
>
    decreases rs.len(),
{
    if rs.len() == 0 {
        Ok(Seq::empty())
    } else {
        match data_rows(rs.drop_last(), width) {
            Err(e) => Err(e),
            Ok(done) => match data_row(rs.last(), width) {
                Err(e) => Err(e),
                Ok(r) => Ok(done.push(r)),
            },
        }
    }
}

/// The table a worksheet yields: its first row gives the headers, every
/// later row one data row. An empty worksheet gives an empty table.
pub open spec fn sheet_table(cells: Seq<Seq<Cell>>) -> Result<TableView, LoadErrorView> {
    if cells.len() == 0 {
        Ok(TableView { columns: Seq::empty(), rows: Seq::empty() })
    } else {
        match row_texts(cells[0], true) {
            Err(m) => Err(LoadErrorView::CellError(m)),
            Ok(columns) => match data_rows(cells.drop_first(), cells[0].len()) {
                Err(e) => Err(e),
                Ok(rows) => Ok(TableView { columns, rows }),
            },
        }
    }
}

pub open spec fn cells_view(v: Seq<Vec<Cell>>) -> Seq<Seq<Cell>> {
    v.map_values(|r: Vec<Cell>| r@)
}

fn digit_str(d: u64) -> (r: &'static str)
    requires
        d < 10,
    ensures
        r@ == seq![digit_char(d as nat)],
{
    proof {
        reveal_strlit("0");
        reveal_strlit("1");
        reveal_strlit("2");
        reveal_strlit("3");
        reveal_strlit("4");
        reveal_strlit("5");
        reveal_strlit("6");
        reveal_strlit("7");
        reveal_strlit("8");
        reveal_strlit("9");
    }
    if d == 0 { "0" } else if d == 1 { "1" } else if d == 2 { "2" } else if d == 3 { "3" }
    else if d == 4 { "4" } else if d == 5 { "5" } else if d == 6 { "6" } else if d == 7 { "7" }
    else if d == 8 { "8" } else { "9" }
}

/// Digit characters of `low`, which holds digits least significant first.
pub open spec fn digits_rev(low: Seq<u64>) -> Seq<char> {
    Seq::new(low.len(), |k: int| digit_char(low[low.len() - 1 - k] as nat))
}

/// Decimal text of an integer.
fn int_to_text(i: i64) -> (r: String)
    ensures
        r@ == int_text(i as int),
{
    let m: u64 = if i < 0 { (0i128 - i as i128) as u64 } else { i as u64 };
    let ghost mm = if i < 0 { (-i) as nat } else { i as nat };
    assert(m == mm);
    // Low digits first, then written out in reverse.
    let mut low: Vec<u64> = Vec::new();
    let mut q: u64 = m;
    while q >= 10
        invariant
            decimal(m as nat) == decimal(q as nat) + digits_rev(low@),
            forall|k: int| 0 <= k < low.len() ==> low@[k] < 10,
        decreases q,
    {
        proof {
            assert(decimal(q as nat) == decimal((q / 10) as nat) + seq![digit_char((q % 10) as nat)]);
            assert(digits_rev(low@.push(q % 10)) =~= seq![digit_char((q % 10) as nat)] + digits_rev(low@));
            assert(decimal(m as nat) =~= decimal((q / 10) as nat) + digits_rev(low@.push(q % 10)));
        }
        low.push(q % 10);
        q = q / 10;
    }
    let ghost tail = digits_rev(low@);
    let mut r = String::new();
    if i < 0 {
        proof {
            reveal_strlit("-");
        }
        r.append("-");
    }
    let ghost prefix = r@;
    r.append(digit_str(q));
    let mut k: usize = low.len();
    while k > 0
        invariant
            k <= low.len(),
            decimal(m as nat) == decimal(q as nat) + tail,
            q < 10,
            tail == digits_rev(low@),
            forall|j: int| 0 <= j < low.len() ==> low@[j] < 10,
            r@ == prefix + decimal(q as nat) + tail.take(low.len() - k),
        decreases k,
    {
        let d = low[k - 1];
        assert(tail[low.len() - k] == digit_char(d as nat));
        r.append(digit_str(d));
        assert(tail.take(low.len() - k + 1) =~= tail.take(low.len() - k).push(digit_char(d as nat)));
        k -= 1;
    }
    assert(tail.take(low.len() as int) =~= tail);
    assert(prefix + decimal(q as nat) + tail =~= prefix + decimal(m as nat));
    r
}

/// Text of a cell; `header` selects the empty-string convention for empty
/// header cells.
fn cell_to_text(c: &Cell, header: bool) -> (r: Result<String, String>)
    ensures
        match (if header { header_text(*c) } else { cell_text(*c) }) {
            Ok(t) => r is Ok && r->Ok_0@ == t,
            Err(m) => r is Err && r->Err_0@ == m,
        },
{
    match c {
        Cell::Empty => {
            if header {
                Ok(String::new())
            } else {
                proof {
                    reveal_strlit("null");
                }
                Ok(String::from_str("null"))
            }
        },
        Cell::String(s) => Ok(s.clone()),
        Cell::DateTimeIso(s) => Ok(s.clone()),
        Cell::DurationIso(s) => Ok(s.clone()),
        Cell::Float(s) => Ok(s.clone()),
        Cell::DateTime(s) => Ok(s.clone()),
        Cell::Duration(s) => Ok(s.clone()),
        Cell::Int(i) => Ok(int_to_text(*i)),
        Cell::Bool(b) => {
            proof {
                reveal_strlit("true");
                reveal_strlit("false");
            }
            if *b {
                Ok(String::from_str("true"))
            } else {
                Ok(String::from_str("false"))
            }
        },
        Cell::Error(m) => Err(m.clone()),
    }
}

/// Texts of a row, or the text of its first error cell.
fn row_to_texts(r: &Vec<Cell>, header: bool) -> (out: Result<Vec<String>, String>)
    ensures
        match row_texts(r@, header) {
            Ok(ts) => out is Ok && strings_view(out->Ok_0@) == ts,
            Err(m) => out is Err && out->Err_0@ == m,
        },
{
    let mut texts: Vec<String> = Vec::new();
    let mut j: usize = 0;
    assert(r@.take(0) =~= Seq::<Cell>::empty());
    assert(strings_view(texts@) =~= Seq::<Seq<char>>::empty());
    while j < r.len()
        invariant
            0 <= j <= r.len(),
            row_texts(r@.take(j as int), header) == Ok::<Seq<Seq<char>>, Seq<char>>(strings_view(texts@)),
        decreases r.len() - j,
    {
        assert(r@.take(j as int + 1).drop_last() =~= r@.take(j as int));
        assert(r@.take(j as int + 1).last() == r@[j as int]);
        match cell_to_text(&r[j], header) {
            Ok(t) => {
                let ghost before = texts@;
                let ghost tv = t@;
                texts.push(t);
                assert(strings_view(texts@) =~= strings_view(before).push(tv));
            },
            Err(m) => {
                proof {
                    lemma_row_texts_err_prefix(r@, header, j as int + 1);
                }
                return Err(m);
            },
        }
        j += 1;
    }
    assert(r@.take(j as int) =~= r@);
    Ok(texts)
}

proof fn lemma_row_texts_err_prefix(r: Seq<Cell>, header: bool, k: int)
    requires
        0 <= k <= r.len(),
        row_texts(r.take(k), header) is Err,
    ensures
        row_texts(r, header) == row_texts(r.take(k), header),
    decreases r.len() - k,
{
    if k < r.len() {
        assert(r.take(k + 1).drop_last() =~= r.take(k));
        lemma_row_texts_err_prefix(r, header, k + 1);
    } else {
        assert(r.take(k) =~= r);
    }
}

proof fn lemma_data_rows_err_prefix(rs: Seq<Seq<Cell>>, width: nat, k: int)
    requires
        0 <= k <= rs.len(),
        data_rows(rs.take(k), width) is Err,
    ensures
        data_rows(rs, width) == data_rows(rs.take(k), width),
    decreases rs.len() - k,
{
    if k < rs.len() {
        assert(rs.take(k + 1).drop_last() =~= rs.take(k));
        lemma_data_rows_err_prefix(rs, width, k + 1);
    } else {
        assert(rs.take(k) =~= rs);
    }
}

/// Builds the table of a worksheet given as rows of cells. The first row
/// gives the headers (an empty header cell is `""`); each later row gives one
/// data row, where an empty cell is `"null"`, text is kept verbatim, numbers
/// are written in decimal and booleans as `true` / `false`. A row narrower or
/// wider than the header fails the load, and so does an error-valued cell
/// anywhere, with that cell's text; no partial table is returned.
pub fn sheet_to_table(cells: &Vec<Vec<Cell>>) -> (r: Result<TableStruct, LoadError>)
    ensures
        result_view(r) == sheet_table(cells_view(cells@)),
        r is Ok ==> r->Ok_0.wf(),
{
    let ghost cv = cells_view(cells@);
    proof {
        crate::laws::lemma_sheet_shape(cv);
    }
    if cells.len() == 0 {
        let t = TableStruct { columns: Vec::new(), rows: Vec::new() };
        assert(t@.columns =~= Seq::<Seq<char>>::empty());
        assert(t@.rows =~= Seq::<Seq<Seq<char>>>::empty());
        return Ok(t);
    }
    assert(cv[0] == cells@[0]@);
    let columns = match row_to_texts(&cells[0], true) {
        Ok(c) => c,
        Err(m) => return Err(LoadError::CellError(m)),
    };
    let width = cells[0].len();
    let ghost data = cv.drop_first();
    let mut rows: Vec<Vec<String>> = Vec::new();
    let mut i: usize = 1;
    assert(data.take(0) =~= Seq::<Seq<Cell>>::empty());
    assert(crate::models::rows_view(rows@) =~= Seq::<Seq<Seq<char>>>::empty());
    while i < cells.len()
        invariant
            1 <= i <= cells.len(),
            cv == cells_view(cells@),
            data == cv.drop_first(),
            width == cv[0].len(),
            row_texts(cv[0], true) == Ok::<Seq<Seq<char>>, Seq<char>>(strings_view(columns@)),
            data_rows(data.take(i - 1), width as nat) == Ok::<Seq<Seq<Seq<char>>>, LoadErrorView>(
                crate::models::rows_view(rows@),
            ),
        decreases cells.len() - i,
    {
        let row = &cells[i];
        assert(data[i - 1] == row@);
        assert(data.take(i as int).drop_last() =~= data.take(i - 1));
        assert(data.take(i as int).last() == row@);
        if row.len() != width {
            proof {
                lemma_data_rows_err_prefix(data, width as nat, i as int);
            }
            let s = String::from_str("Row width does not match the header");
            proof {
                reveal_strlit("Row width does not match the header");
                assert(s@ =~= ragged_text());
            }
            return Err(LoadError::ReadFailure(s));
        }
        match row_to_texts(row, false) {
            Ok(texts) => {
                let ghost before = rows@;
                let ghost tv = strings_view(texts@);
                rows.push(texts);
                assert(crate::models::rows_view(rows@) =~= crate::models::rows_view(before).push(tv));
            },
            Err(m) => {
                proof {
                    lemma_data_rows_err_prefix(data, width as nat, i as int);
                }
                return Err(LoadError::CellError(m));
            },
        }
        i += 1;
    }
    assert(data.take(i - 1) =~= data);
    Ok(TableStruct { columns, rows })
}

/// Copies every cell of a worksheet range, row by row; every row is as wide
/// as the first.
fn range_to_cells(r: &Range<DataType>) -> (out: Vec<Vec<Cell>>)
    ensures
        cells_view(out@) == range_cells(*r),
        forall|i: int| 0 <= i < range_cells(*r).len() ==> #[trigger] range_cells(*r)[i].len() == range_cells(*r)[0].len(),
{
    let h = range_height(r);
    let w = range_width(r);
    let mut out: Vec<Vec<Cell>> = Vec::new();
    let mut i: usize = 0;
    while i < h
        invariant
            0 <= i <= h,
            h == range_cells(*r).len(),
            forall|k: int| 0 <= k < h ==> #[trigger] range_cells(*r)[k].len() == w,
            cells_view(out@) == range_cells(*r).take(i as int),
            out.len() == i,
        decreases h - i,
    {
        let mut row: Vec<Cell> = Vec::new();
        let mut j: usize = 0;
        while j < w
            invariant
                0 <= j <= w,
                i < h,
                h == range_cells(*r).len(),
                range_cells(*r)[i as int].len() == w,
                row@ == range_cells(*r)[i as int].take(j as int),
            decreases w - j,
        {
            let c = range_cell(r, i, j);
            row.push(c);
            assert(row@ =~= range_cells(*r)[i as int].take(j as int + 1));
            j += 1;
        }
        assert(row@ =~= range_cells(*r)[i as int]);
        let ghost before = out@;
        out.push(row);
        assert(out@[i as int]@ == range_cells(*r)[i as int]);
        assert(cells_view(out@) =~= cells_view(before).push(range_cells(*r)[i as int]));
        assert(cells_view(out@) =~= range_cells(*r).take(i as int + 1));
        i += 1;
    }
    assert(range_cells(*r).take(h as int) =~= range_cells(*r));
    out
}

/// Reads the first worksheet of an xlsx workbook, given as what opening the
/// workbook and taking its first sheet gave. A workbook that did not open is
/// a `ReadFailure` with its message; one with no worksheet is
/// `SheetNotFound`; otherwise the result is the sheet's table. Every row of a
/// sheet is as wide as its first.
pub fn read_excel(sheet: &Result<Option<Range<DataType>>, String>) -> (r: Result<TableStruct, LoadError>)
    ensures
        result_view(r) == excel_outcome(*sheet),
        r is Ok ==> r->Ok_0.wf(),
        sheet matches Ok(Some(g)) ==> forall|i: int|
            0 <= i < range_cells(*g).len() ==> #[trigger] range_cells(*g)[i].len() == range_cells(*g)[0].len(),
{
    match sheet {
        Err(m) => Err(LoadError::ReadFailure(m.clone())),
        Ok(None) => Err(LoadError::SheetNotFound),
        Ok(Some(range)) => {
            let cells = range_to_cells(range);
            sheet_to_table(&cells)
        },
    }
}

/// The outcome of reading a workbook's first sheet.
pub open spec fn excel_outcome(sheet: Result<Option<Range<DataType>>, String>) -> Result<TableView, LoadErrorView> {
    match sheet {
        Err(m) => Err(LoadErrorView::ReadFailure(m@)),
        Ok(None) => Err(LoadErrorView::SheetNotFound),
        Ok(Some(g)) => sheet_table(range_cells(g)),
    }
}

} // verus!
