use calamine::{DataType, Range};
use vstd::prelude::*;

use crate::app::{apply_all, apply_spec, message_wf, state_wf, AppView};
use crate::enums::MessageView;
use crate::format::LoadErrorView;
use crate::frame::{column_height, frame_table};
use crate::read_file::{load_outcome, FileContents};
use crate::spreadsheet::{
    cell_text, data_row, range_cells, data_rows, header_text, null_text, row_texts, sheet_table, Cell,
};

verus! {

proof fn lemma_row_texts_len(r: Seq<Cell>, header: bool)
    ensures
        row_texts(r, header) is Ok ==> row_texts(r, header)->Ok_0.len() == r.len(),
    decreases r.len(),
{
    if r.len() > 0 {
        lemma_row_texts_len(r.drop_last(), header);
    }
}

proof fn lemma_data_rows_shape(rs: Seq<Seq<Cell>>, width: nat)
    ensures
        data_rows(rs, width) is Ok ==> {
            let out = data_rows(rs, width)->Ok_0;
            &&& out.len() == rs.len()
            &&& forall|i: int| 0 <= i < out.len() ==> #[trigger] out[i].len() == width
        },
    decreases rs.len(),
{
    if rs.len() > 0 {
        lemma_data_rows_shape(rs.drop_last(), width);
        lemma_row_texts_len(rs.last(), false);
        if data_rows(rs, width) is Ok {
            let out = data_rows(rs, width)->Ok_0;
            let prev = data_rows(rs.drop_last(), width)->Ok_0;
            assert forall|i: int| 0 <= i < out.len() implies #[trigger] out[i].len() == width by {
                if i < prev.len() {
                    assert(out[i] == prev[i]);
                }
            }
        }
    }
}

/// A worksheet that loads gives one header per cell of its first row, one
/// data row per later row, and every data row as wide as the header.
pub proof fn lemma_sheet_shape(cells: Seq<Seq<Cell>>)
    ensures
        sheet_table(cells) is Ok ==> {
            let t = sheet_table(cells)->Ok_0;
            &&& t.wf()
            &&& cells.len() > 0 ==> t.columns.len() == cells[0].len() && t.rows.len() == cells.len() - 1
        },
{
    if cells.len() > 0 {
        lemma_row_texts_len(cells[0], true);
        lemma_data_rows_shape(cells.drop_first(), cells[0].len());
    }
}

proof fn lemma_row_texts_index(r: Seq<Cell>, header: bool, j: int)
    requires
        0 <= j < r.len(),
        row_texts(r, header) is Ok,
    ensures
        row_texts(r, header)->Ok_0.len() == r.len(),
        (if header { header_text(r[j]) } else { cell_text(r[j]) }) == Ok::<Seq<char>, Seq<char>>(
            row_texts(r, header)->Ok_0[j],
        ),
    decreases r.len(),
{
    lemma_row_texts_len(r, header);
    lemma_row_texts_len(r.drop_last(), header);
    if j < r.len() - 1 {
        lemma_row_texts_index(r.drop_last(), header, j);
    }
}

proof fn lemma_data_rows_index(rs: Seq<Seq<Cell>>, width: nat, i: int)
    requires
        0 <= i < rs.len(),
        data_rows(rs, width) is Ok,
    ensures
        data_row(rs[i], width) == Ok::<Seq<Seq<char>>, LoadErrorView>(data_rows(rs, width)->Ok_0[i]),
    decreases rs.len(),
{
    lemma_data_rows_shape(rs, width);
    lemma_data_rows_shape(rs.drop_last(), width);
    if i < rs.len() - 1 {
        lemma_data_rows_index(rs.drop_last(), width, i);
    }
}

/// In a worksheet that loads, the text at data row `i - 1`, column `j` is the
/// text of the cell at sheet row `i`, column `j`.
pub proof fn lemma_sheet_cell(cells: Seq<Seq<Cell>>, i: int, j: int)
    requires
        sheet_table(cells) is Ok,
        1 <= i < cells.len(),
        0 <= j < cells[i].len(),
    ensures
        cell_text(cells[i][j]) == Ok::<Seq<char>, Seq<char>>(sheet_table(cells)->Ok_0.rows[i - 1][j]),
{
    let rs = cells.drop_first();
    let width = cells[0].len();
    assert(rs[i - 1] == cells[i]);
    lemma_data_rows_index(rs, width, i - 1);
    lemma_row_texts_index(cells[i], false, j);
}

/// An empty cell in a data row of a worksheet that loads reads as `"null"`.
pub proof fn lemma_empty_cell_is_null(cells: Seq<Seq<Cell>>, i: int, j: int)
    requires
        sheet_table(cells) is Ok,
        1 <= i < cells.len(),
        0 <= j < cells[i].len(),
        cells[i][j] is Empty,
    ensures
        sheet_table(cells)->Ok_0.rows[i - 1][j] == null_text(),
{
    lemma_sheet_cell(cells, i, j);
}

/// In a workbook's first sheet that loads, an empty cell of a data row reads
/// as `"null"`; the sheet's rows all share the first row's width.
pub proof fn lemma_workbook_empty_cell_is_null(g: Range<DataType>, i: int, j: int)
    requires
        forall|k: int| 0 <= k < range_cells(g).len() ==> #[trigger] range_cells(g)[k].len() == range_cells(g)[0].len(),
        sheet_table(range_cells(g)) is Ok,
        1 <= i < range_cells(g).len(),
        0 <= j < range_cells(g)[0].len(),
        range_cells(g)[i][j] is Empty,
    ensures
        sheet_table(range_cells(g))->Ok_0.rows[i - 1][j] == null_text(),
{
    assert(range_cells(g)[i].len() == range_cells(g)[0].len());
    lemma_empty_cell_is_null(range_cells(g), i, j);
}

/// One error-valued cell anywhere in a worksheet, header included, makes the
/// whole load fail: no table is produced.
pub proof fn lemma_error_cell_fails(cells: Seq<Seq<Cell>>, i: int, j: int)
    requires
        0 <= i < cells.len(),
        0 <= j < cells[i].len(),
        cells[i][j] is Error,
    ensures
        sheet_table(cells) is Err,
{
    if sheet_table(cells) is Ok {
        if i == 0 {
            lemma_row_texts_index(cells[0], true, j);
        } else {
            lemma_sheet_cell(cells, i, j);
        }
    }
}

/// A frame whose columns all share one height gives a table with one header
/// per name, one row per frame row, and every row as wide as the header.
pub proof fn lemma_frame_shape(names: Seq<Seq<char>>, cols: Seq<Seq<Option<Seq<char>>>>)
    requires
        cols.len() == names.len(),
        forall|c: int| 0 <= c < cols.len() ==> #[trigger] cols[c].len() == column_height(cols),
    ensures
        frame_table(names, cols).columns.len() == names.len(),
        frame_table(names, cols).rows.len() == column_height(cols),
        frame_table(names, cols).wf(),
{
}

/// Loading the same contents under the same path twice gives the same
/// outcome: the same headers and rows, in the same order, or the same error.
pub proof fn lemma_load_deterministic(p1: Seq<char>, c1: FileContents, p2: Seq<char>, c2: FileContents)
    requires
        p1 == p2,
        c1 == c2,
    ensures
        load_outcome(p1, c1) == load_outcome(p2, c2),
{
}

/// With two loads in flight, whichever terminal message is applied last
/// decides what is shown, whatever order the loads were issued in: a table
/// with no error after `ReadFile`, its error after `ReadFileError`. The path
/// is never touched by either.
pub proof fn lemma_last_received_wins(s: AppView, m1: MessageView, m2: MessageView)
    requires
        m1.is_terminal(),
        m2.is_terminal(),
    ensures
        ({
            let f = apply_spec(apply_spec(s, m1), m2);
            &&& f.file_path == s.file_path
            &&& m2 matches MessageView::ReadFile(t) ==> f.table == Some(t) && f.error is None
            &&& m2 matches MessageView::ReadFileError(e) ==> f.error == Some(e)
        }),
{
}

/// However loads overlap and whatever order their messages arrive in,
/// applying them one by one keeps the state well formed, and the last
/// terminal message received decides what is shown: its table with no
/// error, or its error.
pub proof fn lemma_any_arrival_order(s: AppView, ms: Seq<MessageView>)
    requires
        state_wf(s),
        forall|k: int| 0 <= k < ms.len() ==> message_wf(#[trigger] ms[k]),
    ensures
        state_wf(apply_all(s, ms)),
        ms.len() > 0 ==> (ms.last() matches MessageView::ReadFile(t) ==> apply_all(s, ms).table == Some(t)
            && apply_all(s, ms).error is None),
        ms.len() > 0 ==> (ms.last() matches MessageView::ReadFileError(e) ==> apply_all(s, ms).error
            == Some(e)),
    decreases ms.len(),
{
    if ms.len() > 0 {
        assert forall|k: int| 0 <= k < ms.drop_last().len() implies message_wf(#[trigger] ms.drop_last()[k]) by {
            assert(ms.drop_last()[k] == ms[k]);
        }
        lemma_any_arrival_order(s, ms.drop_last());
        assert(message_wf(ms[ms.len() - 1]));
    }
}

} // verus!
