//! The commands that drive the viewer.

use vstd::prelude::*;

verus! {

/// A navigation command, produced from a key press by the key map.
#[derive(Clone, Copy, Debug, PartialEq, Eq, Hash, PartialOrd, Ord, Structural)]
pub enum Message {
    PrevRow,
    NextRow,
    LastRow,
    FirstRow,
    Quit,
}

/// The command that a configuration file names with `name`, if any.
pub open spec fn message_named(name: Seq<char>) -> Option<Message> {
    if name == "PrevRow"@ {
        Some(Message::PrevRow)
    } else if name == "NextRow"@ {
        Some(Message::NextRow)
    } else if name == "LastRow"@ {
        Some(Message::LastRow)
    } else if name == "FirstRow"@ {
        Some(Message::FirstRow)
    } else if name == "Quit"@ {
        Some(Message::Quit)
    } else {
        None
    }
}

/// The short description shown in the help pane.
pub open spec fn message_description(m: Message) -> Seq<char> {
    match m {
        Message::PrevRow => "Scroll up one row"@,
        Message::NextRow => "Scroll down one row"@,
        Message::LastRow => "Jump to bottom row"@,
        Message::FirstRow => "Jump to top row"@,
        Message::Quit => "Quit application"@,
    }
}

/// Whether two strings hold the same characters.
pub fn same_text(a: &str, b: &str) -> (r: bool)
    ensures
        r == (a@ == b@),
{
    a.to_owned() == b.to_owned()
}

impl Message {
    /// The command named `name` in a configuration file.
    pub fn from_name(name: &str) -> (r: Option<Message>)
        ensures
            r == message_named(name@),
    {
        if same_text(name, "PrevRow") {
            Some(Message::PrevRow)
        } else if same_text(name, "NextRow") {
            Some(Message::NextRow)
        } else if same_text(name, "LastRow") {
            Some(Message::LastRow)
        } else if same_text(name, "FirstRow") {
            Some(Message::FirstRow)
        } else if same_text(name, "Quit") {
            Some(Message::Quit)
        } else {
            None
        }
    }

    /// A user-friendly short description of the command.
    pub fn description(&self) -> (r: &'static str)
        ensures
            r@ == message_description(*self),
    {
        match self {
            Message::PrevRow => "Scroll up one row",
            Message::NextRow => "Scroll down one row",
            Message::LastRow => "Jump to bottom row",
            Message::FirstRow => "Jump to top row",
            Message::Quit => "Quit application",
        }
    }
}

} // verus!
