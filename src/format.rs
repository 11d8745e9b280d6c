use vstd::prelude::*;

use crate::models::{TableStruct, TableView};

verus! {

/// The four supported input formats.
#[derive(Debug, Clone, Copy, PartialEq, Eq, Structural)]
pub enum FileFormat {
    Csv,
    Parquet,
    Json,
    Xlsx,
}

/// Why a load failed.
#[derive(Debug, Clone)]
pub enum LoadError {
    /// The path has no extension, or one that no reader handles.
    UnsupportedFormat,
    /// The workbook holds no worksheet.
    SheetNotFound,
    /// A spreadsheet cell holds an error value; carries its text.
    CellError(String),
    /// The format backend could not parse the input; carries its message.
    ReadFailure(String),
}

/// Mathematical model of a load error.
pub enum LoadErrorView {
    UnsupportedFormat,
    SheetNotFound,
    CellError(Seq<char>),
    ReadFailure(Seq<char>),
}

impl View for LoadError {
    type V = LoadErrorView;

    open spec fn view(&self) -> LoadErrorView {
        match self {
            LoadError::UnsupportedFormat => LoadErrorView::UnsupportedFormat,
            LoadError::SheetNotFound => LoadErrorView::SheetNotFound,
            LoadError::CellError(m) => LoadErrorView::CellError(m@),
            LoadError::ReadFailure(m) => LoadErrorView::ReadFailure(m@),
        }
    }
}

pub open spec fn unsupported_text() -> Seq<char> {
    seq![
        'F', 'i', 'l', 'e', ' ', 'e', 'x', 't', 'e', 'n', 's', 'i', 'o', 'n', ' ',
        'n', 'o', 't', ' ', 's', 'u', 'p', 'p', 'o', 'r', 't', 'e', 'd', ' ', 'y', 'e', 't'
    ]
}

pub open spec fn no_sheet_text() -> Seq<char> {
    seq!['N', 'o', ' ', 's', 'h', 'e', 'e', 't', ' ', 'f', 'o', 'u', 'n', 'd']
}

impl LoadErrorView {
    /// The human-readable text that crosses the message boundary.
    pub open spec fn message(self) -> Seq<char> {
        match self {
            LoadErrorView::UnsupportedFormat => unsupported_text(),
            LoadErrorView::SheetNotFound => no_sheet_text(),
            LoadErrorView::CellError(m) => m,
            LoadErrorView::ReadFailure(m) => m,
        }
    }
}

impl LoadError {
    /// The error as one human-readable string.
    pub fn message(&self) -> (r: String)
        ensures
            r@ == self@.message(),
    {
        match self {
            LoadError::UnsupportedFormat => {
                let s = String::from_str("File extension not supported yet");
                proof {
                    reveal_strlit("File extension not supported yet");
                }
                s
            },
            LoadError::SheetNotFound => {
                let s = String::from_str("No sheet found");
                proof {
                    reveal_strlit("No sheet found");
                }
                s
            },
            LoadError::CellError(m) => m.clone(),
            LoadError::ReadFailure(m) => m.clone(),
        }
    }
}

/// Model of a load outcome.
pub open spec fn result_view(r: Result<TableStruct, LoadError>) -> Result<TableView, LoadErrorView> {
    match r {
        Ok(t) => Ok(t@),
        Err(e) => Err(e@),
    }
}

/// Index of the last `'.'` in `s`, or -1 when there is none.
pub open spec fn last_dot(s: Seq<char>) -> int
    decreases s.len(),
{
    if s.len() == 0 {
        -1
    } else if s.last() == '.' {
        s.len() - 1
    } else {
        last_dot(s.drop_last())
    }
}

/// The literal text after the last `'.'`, if the path has a dot.
pub open spec fn extension_of(s: Seq<char>) -> Option<Seq<char>> {
    let k = last_dot(s);
    if k < 0 {
        None
    } else {
        Some(s.subrange(k + 1, s.len() as int))
    }
}

/// Which reader handles an extension (exact, case-sensitive match).
pub open spec fn format_of_extension(e: Seq<char>) -> Option<FileFormat> {
    if e == seq!['c', 's', 'v'] {
        Some(FileFormat::Csv)
    } else if e == seq!['p', 'a', 'r', 'q', 'u', 'e', 't'] {
        Some(FileFormat::Parquet)
    } else if e == seq!['j', 's', 'o', 'n'] {
        Some(FileFormat::Json)
    } else if e == seq!['x', 'l', 's', 'x'] {
        Some(FileFormat::Xlsx)
    } else {
        None
    }
}

/// The format of a path, by its extension.
pub open spec fn format_of_path(s: Seq<char>) -> Option<FileFormat> {
    match extension_of(s) {
        Some(e) => format_of_extension(e),
        None => None,
    }
}

proof fn lemma_last_dot_bounds(s: Seq<char>)
    ensures
        -1 <= last_dot(s) < s.len(),
        last_dot(s) >= 0 ==> s[last_dot(s)] == '.',
        forall|j: int| last_dot(s) < j < s.len() ==> s[j] != '.',
    decreases s.len(),
{
    if s.len() > 0 && s.last() != '.' {
        lemma_last_dot_bounds(s.drop_last());
        assert forall|j: int| last_dot(s) < j < s.len() implies s[j] != '.' by {
            if j < s.len() - 1 {
                assert(s[j] == s.drop_last()[j]);
            }
        }
    }
}

proof fn lemma_last_dot_scan(s: Seq<char>, k: int)
    requires
        0 <= k <= s.len(),
        forall|j: int| k <= j < s.len() ==> s[j] != '.',
    ensures
        last_dot(s) == last_dot(s.subrange(0, k)),
    decreases s.len() - k,
{
    if k < s.len() {
        assert(s.drop_last() =~= s.subrange(0, s.len() - 1));
        lemma_last_dot_scan(s.drop_last(), k);
        assert(s.drop_last().subrange(0, k) =~= s.subrange(0, k));
    } else {
        assert(s.subrange(0, k) =~= s);
    }
}

/// The characters of a string slice, in order.
pub(crate) fn chars_of(s: &str) -> (r: Vec<char>)
    ensures
        r@ == s@,
{
    let mut v: Vec<char> = Vec::new();
    for c in it: s.chars()
        invariant
            it.seq() == s@,
            v@ == s@.take(it.index() as int),
    {
        v.push(c);
        assert(v@ =~= s@.take(it.index() as int + 1));
    }
    assert(v@ =~= s@);
    v
}

/// Whether `v[start..]` spells `word`.
fn suffix_is(v: &Vec<char>, start: usize, word: &Vec<char>) -> (r: bool)
    requires
        start <= v.len(),
    ensures
        r == (v@.subrange(start as int, v.len() as int) == word@),
{
    if v.len() - start != word.len() {
        assert(v@.subrange(start as int, v.len() as int).len() != word@.len());
        return false;
    }
    let mut i: usize = 0;
    while i < word.len()
        invariant
            start <= v.len(),
            v.len() - start == word.len(),
            0 <= i <= word.len(),
            forall|j: int| 0 <= j < i ==> v@[start + j] == word@[j],
        decreases word.len() - i,
    {
        if v[start + i] != word[i] {
            assert(v@.subrange(start as int, v.len() as int)[i as int] != word@[i as int]);
            return false;
        }
        i += 1;
    }
    assert(v@.subrange(start as int, v.len() as int) =~= word@);
    true
}

/// Picks the reader for a path from the literal suffix after its last `'.'`.
/// `csv`, `parquet`, `json` and `xlsx` are recognised, case-sensitively; any
/// other extension, or none, is `UnsupportedFormat`.
pub fn detect_format(path: &str) -> (r: Result<FileFormat, LoadError>)
    ensures
        match format_of_path(path@) {
            Some(f) => r == Ok::<FileFormat, LoadError>(f),
            None => r is Err && r->Err_0@ == LoadErrorView::UnsupportedFormat,
        },
{
    let v = chars_of(path);
    let mut k: usize = v.len();
    while k > 0 && v[k - 1] != '.'
        invariant
            k <= v.len(),
            forall|j: int| k <= j < v.len() ==> v@[j] != '.',
        decreases k,
    {
        k -= 1;
    }
    proof {
        lemma_last_dot_scan(v@, k as int);
        if k > 0 {
            assert(v@.subrange(0, k as int).last() == '.');
            assert(last_dot(v@) == k - 1);
        } else {
            assert(v@.subrange(0, 0).len() == 0);
            assert(last_dot(v@) == -1);
        }
    }
    if k == 0 {
        return Err(LoadError::UnsupportedFormat);
    }
    if suffix_is(&v, k, &vec!['c', 's', 'v']) {
        Ok(FileFormat::Csv)
    } else if suffix_is(&v, k, &vec!['p', 'a', 'r', 'q', 'u', 'e', 't']) {
        Ok(FileFormat::Parquet)
    } else if suffix_is(&v, k, &vec!['j', 's', 'o', 'n']) {
        Ok(FileFormat::Json)
    } else if suffix_is(&v, k, &vec!['x', 'l', 's', 'x']) {
        Ok(FileFormat::Xlsx)
    } else {
        Err(LoadError::UnsupportedFormat)
    }
}

} // verus!
