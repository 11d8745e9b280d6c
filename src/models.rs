use vstd::prelude::*;

verus! {

/// The normalised result of a load: ordered headers and ordered rows of
/// display strings.
#[derive(Debug, Clone)]
pub struct TableStruct {
    pub columns: Vec<String>,
    pub rows: Vec<Vec<String>>,
}

/// Mathematical model of a table.
pub struct TableView {
    pub columns: Seq<Seq<char>>,
    pub rows: Seq<Seq<Seq<char>>>,
}

impl TableView {
    /// Every row has exactly one cell per column.
    pub open spec fn wf(self) -> bool {
        forall|i: int| 0 <= i < self.rows.len() ==> #[trigger] self.rows[i].len()
            == self.columns.len()
    }
}

pub open spec fn strings_view(v: Seq<String>) -> Seq<Seq<char>> {
    v.map_values(|s: String| s@)
}

pub open spec fn rows_view(v: Seq<Vec<String>>) -> Seq<Seq<Seq<char>>> {
    v.map_values(|r: Vec<String>| strings_view(r@))
}

impl View for TableStruct {
    type V = TableView;

    open spec fn view(&self) -> TableView {
        TableView { columns: strings_view(self.columns@), rows: rows_view(self.rows@) }
    }
}

impl TableStruct {
    /// Every row is as wide as the header.
    pub open spec fn wf(&self) -> bool {
        self@.wf()
    }
}

/// The three spellings that stand for a missing value.
pub open spec fn absent_spec(s: Seq<char>) -> bool {
    ||| s.len() == 0
    ||| s == seq!['n', 'u', 'l', 'l']
    ||| s == seq!['N', 'o', 'n', 'e']
}

/// Presence check shared by every consumer: `""`, `"null"` and `"None"` all
/// mean that the cell holds no value.
pub fn is_absent(s: &str) -> (r: bool)
    ensures
        r == absent_spec(s@),
{
    let v = crate::format::chars_of(s);
    if v.len() == 0 {
        true
    } else if v.len() == 4 {
        let n = v[0] == 'n' && v[1] == 'u' && v[2] == 'l' && v[3] == 'l';
        let m = v[0] == 'N' && v[1] == 'o' && v[2] == 'n' && v[3] == 'e';
        assert(n ==> v@ =~= seq!['n', 'u', 'l', 'l']);
        assert(m ==> v@ =~= seq!['N', 'o', 'n', 'e']);
        n || m
    } else {
        false
    }
}

} // verus!
