use vstd::prelude::*;

use crate::models::{TableStruct, TableView};

verus! {

/// The messages that carry a load's lifecycle to the controller.
#[derive(Debug, Clone)]
pub enum ChannelMessage {
    /// A path was picked and is about to be loaded.
    OpenFile(String),
    /// A load finished with this table.
    ReadFile(TableStruct),
    /// A load failed with this message.
    ReadFileError(String),
}

/// Mathematical model of a message.
pub enum MessageView {
    OpenFile(Seq<char>),
    ReadFile(TableView),
    ReadFileError(Seq<char>),
}

impl View for ChannelMessage {
    type V = MessageView;

    open spec fn view(&self) -> MessageView {
        match self {
            ChannelMessage::OpenFile(p) => MessageView::OpenFile(p@),
            ChannelMessage::ReadFile(t) => MessageView::ReadFile(t@),
            ChannelMessage::ReadFileError(m) => MessageView::ReadFileError(m@),
        }
    }
}

impl MessageView {
    /// A message that ends a load.
    pub open spec fn is_terminal(self) -> bool {
        !(self is OpenFile)
    }
}

/// The colour themes a viewer can show.
#[derive(Debug, Clone, Copy, PartialEq, Eq, Hash, Structural)]
pub enum ThemeMode {
    Light,
    Dark,
    Frappe,
    Latte,
    Macchiato,
    Mocha,
}

} // verus!
