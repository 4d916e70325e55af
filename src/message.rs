//! Routed messages: a destination, a payload, and a cooperative `handled` flag.
use vstd::prelude::*;
use crate::handle::{Brush, Handle};

verus! {

pub enum WidgetMessage {
    Visibility(bool),
    Background(Brush),
    Remove,
    MouseDown,
    MouseEnter,
    MouseLeave,
}

pub enum ButtonMessage {
    Click,
}

/// Sets the text shown by a text or text-box widget.
pub enum TextMessage {
    Text(String),
}

/// Reports that the content of a text box was edited.
pub enum TextBoxMessage {
    Text(String),
}

pub enum TreeMessage {
    Expand(bool),
    AddItem(Handle),
    RemoveItem(Handle),
    SetItems(Vec<Handle>),
}

pub enum TreeRootMessage {
    AddItem(Handle),
    RemoveItem(Handle),
    Items(Vec<Handle>),
    Selected(Handle),
}

pub enum FileBrowserMessage {
    /// A new root directory, and whether it has any entry.
    Path(String, bool),
    SelectionChanged(String),
}

pub enum UiMessageData {
    Widget(WidgetMessage),
    Button(ButtonMessage),
    Text(TextMessage),
    TextBox(TextBoxMessage),
    Tree(TreeMessage),
    TreeRoot(TreeRootMessage),
    FileBrowser(FileBrowserMessage),
}

pub struct UiMessage {
    pub destination: Handle,
    pub data: UiMessageData,
    pub handled: bool,
}

impl UiMessage {
    pub fn new(destination: Handle, data: UiMessageData) -> (m: UiMessage)
        ensures
            m == (UiMessage { destination, data, handled: false }),
    {
        UiMessage { destination, data, handled: false }
    }
}

} // verus!
