use da_viewer::{detect_format, is_absent, load_data_from_file, FileContents, FileFormat, LoadError};

#[test]
fn detects_each_supported_extension() {
    assert_eq!(detect_format("data.csv").ok(), Some(FileFormat::Csv));
    assert_eq!(detect_format("dir/data.parquet").ok(), Some(FileFormat::Parquet));
    assert_eq!(detect_format("x.tar.json").ok(), Some(FileFormat::Json));
    assert_eq!(detect_format("book.xlsx").ok(), Some(FileFormat::Xlsx));
}

#[test]
fn rejects_unsupported_or_missing_extension() {
    assert!(matches!(detect_format("file.txt"), Err(LoadError::UnsupportedFormat)));
    assert!(matches!(detect_format("README"), Err(LoadError::UnsupportedFormat)));
    assert!(matches!(detect_format("data.CSV"), Err(LoadError::UnsupportedFormat)));
    assert!(matches!(detect_format("data.csv.bak"), Err(LoadError::UnsupportedFormat)));
    assert!(matches!(detect_format(""), Err(LoadError::UnsupportedFormat)));
}

#[test]
fn loading_txt_file_fails_without_panicking() {
    let r = load_data_from_file("file.txt", &FileContents::Bytes(b"a,b\n1,2\n".to_vec()));
    assert_eq!(r.err(), Some("File extension not supported yet".to_string()));
}

#[test]
fn error_messages_are_plain_strings() {
    assert_eq!(LoadError::UnsupportedFormat.message(), "File extension not supported yet");
    assert_eq!(LoadError::SheetNotFound.message(), "No sheet found");
    assert_eq!(LoadError::CellError("#N/A".to_string()).message(), "#N/A");
    assert_eq!(LoadError::ReadFailure("bad".to_string()).message(), "bad");
}

#[test]
fn absence_predicate_accepts_three_spellings() {
    assert!(is_absent(""));
    assert!(is_absent("null"));
    assert!(is_absent("None"));
    assert!(!is_absent("none"));
    assert!(!is_absent("0"));
    assert!(!is_absent("nulls"));
}

#[test]
fn contents_of_the_wrong_kind_fail() {
    let r = load_data_from_file("book.xlsx", &FileContents::Bytes(b"a\n1\n".to_vec()));
    assert_eq!(r.err(), Some("Contents do not match the file format".to_string()));
    let r = load_data_from_file("t.csv", &FileContents::Workbook(Ok(None)));
    assert_eq!(r.err(), Some("Contents do not match the file format".to_string()));
}
