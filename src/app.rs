use vstd::prelude::*;

use crate::enums::{ChannelMessage, MessageView, ThemeMode};
use crate::models::{TableStruct, TableView};

verus! {

/// Presentation state, owned by the single consumer of load messages.
#[derive(Debug)]
pub struct AppModel {
    pub file_path: Option<String>,
    pub table_struct: Option<TableStruct>,
    pub selected_theme: ThemeMode,
    pub is_about_window_open: bool,
    pub error: Option<String>,
}

/// Mathematical model of the presentation state.
pub struct AppView {
    pub file_path: Option<Seq<char>>,
    pub table: Option<TableView>,
    pub error: Option<Seq<char>>,
    pub theme: ThemeMode,
    pub about_open: bool,
}

pub open spec fn opt_text(o: Option<String>) -> Option<Seq<char>> {
    match o {
        Some(s) => Some(s@),
        None => None,
    }
}

pub open spec fn opt_table(o: Option<TableStruct>) -> Option<TableView> {
    match o {
        Some(t) => Some(t@),
        None => None,
    }
}

impl View for AppModel {
    type V = AppView;

    open spec fn view(&self) -> AppView {
        AppView {
            file_path: opt_text(self.file_path),
            table: opt_table(self.table_struct),
            error: opt_text(self.error),
            theme: self.selected_theme,
            about_open: self.is_about_window_open,
        }
    }
}

/// The state after one message, replacing slots wholesale:
/// `OpenFile` sets the path and clears table and error, `ReadFile` sets the
/// table and clears the error, `ReadFileError` sets the error and keeps path
/// and table.
pub open spec fn apply_spec(s: AppView, m: MessageView) -> AppView {
    match m {
        MessageView::OpenFile(p) => AppView { file_path: Some(p), table: None, error: None, ..s },
        MessageView::ReadFile(t) => AppView { table: Some(t), error: None, ..s },
        MessageView::ReadFileError(e) => AppView { error: Some(e), ..s },
    }
}

/// The state after applying messages in the order received.
pub open spec fn apply_all(s: AppView, ms: Seq<MessageView>) -> AppView
    decreases ms.len(),
{
    if ms.len() == 0 {
        s
    } else {
        apply_spec(apply_all(s, ms.drop_last()), ms.last())
    }
}

/// A state whose table, if any, has every row as wide as its header.
pub open spec fn state_wf(s: AppView) -> bool {
    s.table matches Some(t) ==> t.wf()
}

/// A message whose table, if any, has every row as wide as its header.
pub open spec fn message_wf(m: MessageView) -> bool {
    m matches MessageView::ReadFile(t) ==> t.wf()
}

/// The load that a message asks for: the path of an `OpenFile`.
pub open spec fn load_request(m: MessageView) -> Option<Seq<char>> {
    match m {
        MessageView::OpenFile(p) => Some(p),
        _ => None,
    }
}

impl AppModel {
    /// An empty viewer: no path, table or error, dark theme.
    pub fn new() -> (r: AppModel)
        ensures
            r@.file_path is None,
            r@.table is None,
            r@.error is None,
            r@.theme == ThemeMode::Dark,
            !r@.about_open,
    {
        AppModel {
            file_path: None,
            table_struct: None,
            selected_theme: ThemeMode::Dark,
            is_about_window_open: false,
            error: None,
        }
    }

    /// Applies one message to the state and returns the path that must now be
    /// loaded, if the message asks for a load.
    pub fn apply_message(&mut self, msg: ChannelMessage) -> (load: Option<String>)
        ensures
            final(self)@ == apply_spec(old(self)@, msg@),
            opt_text(load) == load_request(msg@),
    {
        match msg {
            ChannelMessage::OpenFile(p) => {
                let again = p.clone();
                self.file_path = Some(p);
                self.table_struct = None;
                self.error = None;
                Some(again)
            },
            ChannelMessage::ReadFile(t) => {
                self.table_struct = Some(t);
                self.error = None;
                None
            },
            ChannelMessage::ReadFileError(e) => {
                self.error = Some(e);
                None
            },
        }
    }

    /// One tick of the consumer: at most one message is applied; without one
    /// the state is left as it is.
    pub fn tick(&mut self, msg: Option<ChannelMessage>) -> (load: Option<String>)
        ensures
            match msg {
                Some(m) => final(self)@ == apply_spec(old(self)@, m@) && opt_text(load) == load_request(m@),
                None => final(self)@ == old(self)@ && load is None,
            },
    {
        match msg {
            Some(m) => self.apply_message(m),
            None => None,
        }
    }
}

} // verus!
