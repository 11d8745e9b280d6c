use da_viewer::{frame_to_table, load_data_from_file, read_csv, read_json, read_parquet, FileContents, LoadError};
use polars::prelude::{DataFrame, DataType, NamedFrom, ParquetReader, ParquetWriter, SerReader, Series};

fn decode_parquet(bytes: &[u8]) -> Result<DataFrame, String> {
    ParquetReader::new(std::io::Cursor::new(bytes.to_vec())).finish().map_err(|e| e.to_string())
}

#[test]
fn csv_example_keeps_empty_cell_empty() {
    let t = read_csv(&b"a,b\n1,2\n3,\n".to_vec()).ok().unwrap();
    assert_eq!(t.columns, vec!["a", "b"]);
    assert_eq!(t.rows, vec![vec!["1", "2"], vec!["3", ""]]);
}

#[test]
fn csv_header_only_gives_no_rows() {
    let t = read_csv(&b"a,b\n".to_vec()).ok().unwrap();
    assert_eq!(t.columns, vec!["a", "b"]);
    assert!(t.rows.is_empty());
}

#[test]
fn csv_strings_are_verbatim_and_rows_row_major() {
    let t = load_data_from_file("people.csv", &FileContents::Bytes(b"name,age,city\nann,31,Oslo\nbob,42,Rome\nkim,7,Lima\n".to_vec()))
        .ok()
        .unwrap();
    assert_eq!(t.columns, vec!["name", "age", "city"]);
    assert_eq!(t.rows.len(), 3);
    assert_eq!(t.rows[0], vec!["ann", "31", "Oslo"]);
    assert_eq!(t.rows[2], vec!["kim", "7", "Lima"]);
    assert!(t.rows.iter().all(|r| r.len() == 3));
}

#[test]
fn csv_loads_the_same_twice() {
    let bytes = FileContents::Bytes(b"x,y\n1,a\n2,b\n".to_vec());
    let a = load_data_from_file("f.csv", &bytes).ok().unwrap();
    let b = load_data_from_file("f.csv", &bytes).ok().unwrap();
    assert_eq!(a.columns, b.columns);
    assert_eq!(a.rows, b.rows);
}

#[test]
fn json_records_are_read() {
    let t = read_json(&br#"[{"a":1,"b":"x"},{"a":2,"b":"y"}]"#.to_vec()).ok().unwrap();
    assert_eq!(t.columns, vec!["a", "b"]);
    assert_eq!(t.rows, vec![vec!["1", "x"], vec!["2", "y"]]);
}

#[test]
fn invalid_json_fails_whole_load() {
    assert!(matches!(read_json(&b"{not json".to_vec()), Err(LoadError::ReadFailure(_))));
}

#[test]
fn parquet_round_trip_is_read() {
    let mut df = DataFrame::new(vec![Series::new("k", &[1i64, 2, 3]), Series::new("v", &["p", "q", "r"])]).unwrap();
    let mut buf: Vec<u8> = Vec::new();
    ParquetWriter::new(&mut buf).finish(&mut df).unwrap();
    let t = read_parquet(&decode_parquet(&buf)).ok().unwrap();
    assert_eq!(t.columns, vec!["k", "v"]);
    assert_eq!(t.rows, vec![vec!["1", "p"], vec!["2", "q"], vec!["3", "r"]]);
}

#[test]
fn invalid_parquet_fails_whole_load() {
    assert!(matches!(read_parquet(&decode_parquet(b"PAR1 nope")), Err(LoadError::ReadFailure(_))));
}

#[test]
fn frame_nulls_become_empty_strings() {
    let df = DataFrame::new(vec![
        Series::new("a", &[Some(1i64), None]),
        Series::new("b", &[Some("s"), Some("t")]),
    ])
    .unwrap();
    let t = frame_to_table(&df);
    assert_eq!(t.columns, vec!["a", "b"]);
    assert_eq!(t.rows, vec![vec!["1", "s"], vec!["", "t"]]);
}

#[test]
fn frame_without_columns_gives_empty_table() {
    let t = frame_to_table(&DataFrame::empty());
    assert!(t.columns.is_empty());
    assert!(t.rows.is_empty());
}

#[test]
fn json_empty_array_gives_empty_table() {
    for input in [&b"[]"[..], &b" [ \n ] \r\n"[..]] {
        let t = read_json(&input.to_vec()).ok().unwrap();
        assert!(t.columns.is_empty());
        assert!(t.rows.is_empty());
    }
}

#[test]
fn csv_bad_input_gives_same_error_twice() {
    let mut text = String::from("a,b\n");
    for i in 0..500 {
        text.push_str(&format!("{},{}\n", i, i));
    }
    text.push_str("abc,1\n");
    let bytes = text.into_bytes();
    match (read_csv(&bytes), read_csv(&bytes)) {
        (Err(LoadError::ReadFailure(x)), Err(LoadError::ReadFailure(y))) => assert_eq!(x, y),
        _ => panic!("both loads must fail with a read failure"),
    }
}

#[test]
fn frame_with_short_column_reads_empty_past_its_end() {
    let df = DataFrame::new_no_checks(vec![Series::new("a", &[1i64, 2]), Series::new("b", &["x"])]);
    let t = frame_to_table(&df);
    assert_eq!(t.rows, vec![vec!["1", "x"], vec!["2", ""]]);
}

#[test]
fn parquet_categorical_column_reads_verbatim() {
    let cat = Series::new("c", &["lo", "hi", "lo"]).cast(&DataType::Categorical(None)).unwrap();
    let mut df = DataFrame::new(vec![cat]).unwrap();
    let mut buf: Vec<u8> = Vec::new();
    ParquetWriter::new(&mut buf).finish(&mut df).unwrap();
    let t = read_parquet(&decode_parquet(&buf)).ok().unwrap();
    assert_eq!(t.rows, vec![vec!["lo"], vec!["hi"], vec!["lo"]]);
}
