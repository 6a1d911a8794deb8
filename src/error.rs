//! Error kinds of the library.

use vstd::prelude::*;

use crate::text::push_str;

verus! {

/// Failures that window operations, configuration and slot handling report.
#[derive(Debug, Clone)]
pub enum PixieError {
    /// The accessibility service refused or failed a request.
    Accessibility(String),
    /// A global shortcut could not be registered.
    Hotkey(String),
    /// No window is saved under the requested slot.
    NoWindowRegistered,
    /// The target window vanished or never existed.
    WindowNotFound,
    /// A configuration value could not be understood.
    Config(String),
    /// Reading or writing a file failed.
    Io(String),
    /// The menu bar item could not be set up.
    MenuBar(String),
    /// The keyboard event tap could not be installed.
    EventTap(String),
}

/// Text of an error for people: a label, then the details it carries.
pub open spec fn error_text(e: PixieError) -> Seq<char> {
    match e {
        PixieError::Accessibility(m) => "Accessibility API error: "@ + m@,
        PixieError::Hotkey(m) => "Hotkey error: "@ + m@,
        PixieError::NoWindowRegistered => "No window registered"@,
        PixieError::WindowNotFound => "Window not found"@,
        PixieError::Config(m) => "Configuration error: "@ + m@,
        PixieError::Io(m) => "IO error: "@ + m@,
        PixieError::MenuBar(m) => "Menu bar error: "@ + m@,
        PixieError::EventTap(m) => "Event tap error: "@ + m@,
    }
}

fn labelled(label: &str, detail: &String) -> (r: String)
    ensures
        r@ == label@ + detail@,
{
    let mut out = String::from_str(label);
    push_str(&mut out, detail.as_str());
    out
}

impl PixieError {
    /// The error as text.
    pub fn message(&self) -> (r: String)
        ensures
            r@ == error_text(*self),
    {
        match self {
            PixieError::Accessibility(m) => labelled("Accessibility API error: ", m),
            PixieError::Hotkey(m) => labelled("Hotkey error: ", m),
            PixieError::NoWindowRegistered => String::from_str("No window registered"),
            PixieError::WindowNotFound => String::from_str("Window not found"),
            PixieError::Config(m) => labelled("Configuration error: ", m),
            PixieError::Io(m) => labelled("IO error: ", m),
            PixieError::MenuBar(m) => labelled("Menu bar error: ", m),
            PixieError::EventTap(m) => labelled("Event tap error: ", m),
        }
    }
}

} // verus!
