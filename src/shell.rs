//! Messages of the desktop shell around the renderer: the window, its
//! header bar and its tabs.
use vstd::prelude::*;

verus! {

/// State of the shell window; it holds nothing of its own.
#[derive(Debug, Default, Clone, Copy, PartialEq, Eq, Structural)]
pub struct AppModel {}

/// Messages to the shell window.
#[derive(Debug, Clone, Copy, PartialEq, Eq, Structural)]
pub enum AppMsg {
    /// The window was asked to close: leave the main loop.
    Quit,
}

/// Messages to the header bar.
#[derive(Debug, Clone, Copy, PartialEq, Eq, Structural)]
pub enum HeaderMsg {
    Add,
    Remove,
}

impl HeaderMsg {
    /// The line the header bar reports for the message.
    pub fn label(&self) -> (r: &'static str)
        ensures
            r@ == match self {
                HeaderMsg::Add => "Add"@,
                HeaderMsg::Remove => "Remove"@,
            },
    {
        match self {
            HeaderMsg::Add => "Add",
            HeaderMsg::Remove => "Remove",
        }
    }
}

} // verus!
