use da_viewer::{read_file, AppModel, ChannelMessage, FileContents, TableStruct, ThemeMode};

fn table(cell: &str) -> TableStruct {
    TableStruct { columns: vec!["c".to_string()], rows: vec![vec![cell.to_string()]] }
}

#[test]
fn new_model_is_empty() {
    let m = AppModel::new();
    assert!(m.file_path.is_none());
    assert!(m.table_struct.is_none());
    assert!(m.error.is_none());
    assert_eq!(m.selected_theme, ThemeMode::Dark);
    assert!(!m.is_about_window_open);
}

#[test]
fn open_file_sets_path_clears_state_and_requests_load() {
    let mut m = AppModel::new();
    m.apply_message(ChannelMessage::ReadFile(table("old")));
    m.apply_message(ChannelMessage::ReadFileError("boom".to_string()));
    let load = m.apply_message(ChannelMessage::OpenFile("a.csv".to_string()));
    assert_eq!(load, Some("a.csv".to_string()));
    assert_eq!(m.file_path, Some("a.csv".to_string()));
    assert!(m.table_struct.is_none());
    assert!(m.error.is_none());
}

#[test]
fn read_file_sets_table_and_clears_error() {
    let mut m = AppModel::new();
    m.apply_message(ChannelMessage::ReadFileError("boom".to_string()));
    let load = m.apply_message(ChannelMessage::ReadFile(table("v")));
    assert_eq!(load, None);
    assert_eq!(m.table_struct.unwrap().rows, vec![vec!["v".to_string()]]);
    assert!(m.error.is_none());
}

#[test]
fn read_error_keeps_path_and_table() {
    let mut m = AppModel::new();
    m.file_path = Some("p.xlsx".to_string());
    m.apply_message(ChannelMessage::ReadFile(table("v")));
    m.apply_message(ChannelMessage::ReadFileError("bad".to_string()));
    assert_eq!(m.error, Some("bad".to_string()));
    assert_eq!(m.file_path, Some("p.xlsx".to_string()));
    assert!(m.table_struct.is_some());
}

#[test]
fn last_received_terminal_message_wins() {
    // Request A is issued first but its result arrives last.
    let mut m = AppModel::new();
    m.apply_message(ChannelMessage::ReadFile(table("from B")));
    m.apply_message(ChannelMessage::ReadFile(table("from A")));
    assert_eq!(m.table_struct.as_ref().unwrap().rows[0][0], "from A");
    m.apply_message(ChannelMessage::ReadFileError("A failed".to_string()));
    assert_eq!(m.error, Some("A failed".to_string()));
}

#[test]
fn tick_without_message_changes_nothing() {
    let mut m = AppModel::new();
    assert_eq!(m.tick(None), None);
    assert!(m.file_path.is_none() && m.table_struct.is_none() && m.error.is_none());
    assert_eq!(m.tick(Some(ChannelMessage::OpenFile("z.json".to_string()))), Some("z.json".to_string()));
}

#[test]
fn read_file_message_reports_success_and_failure() {
    match read_file("t.csv", &FileContents::Bytes(b"a\n1\n".to_vec())) {
        ChannelMessage::ReadFile(t) => assert_eq!(t.rows, vec![vec!["1".to_string()]]),
        other => panic!("unexpected {:?}", other),
    }
    match read_file("t.doc", &FileContents::Bytes(Vec::new())) {
        ChannelMessage::ReadFileError(e) => assert_eq!(e, "File extension not supported yet"),
        other => panic!("unexpected {:?}", other),
    }
}
