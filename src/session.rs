use vstd::prelude::*;

verus! {

/// A command of the interactive session.
#[derive(Debug, Clone, Copy, PartialEq, Eq)]
pub enum Command {
    New,
    List,
    Save,
    Quit,
    Remove,
    Copy,
    Clear,
    Search,
    ForceQuit,
    Export,
    Help,
}

/// The command a typed word names; any other word asks for help.
pub open spec fn command_of(s: Seq<char>) -> Command {
    if s == "new"@ {
        Command::New
    } else if s == "list"@ {
        Command::List
    } else if s == "save"@ {
        Command::Save
    } else if s == "quit"@ {
        Command::Quit
    } else if s == "remove"@ {
        Command::Remove
    } else if s == "copy"@ {
        Command::Copy
    } else if s == "clear"@ {
        Command::Clear
    } else if s == "search"@ {
        Command::Search
    } else if s == "forcequit"@ {
        Command::ForceQuit
    } else if s == "export"@ {
        Command::Export
    } else {
        Command::Help
    }
}

fn is_word(text: &String, word: &str) -> (r: bool)
    ensures
        r == (text@ == word@),
{
    let w = String::from_str(word);
    *text == w
}

/// Reads a command from the word the user typed.
pub fn parse_command(text: &String) -> (r: Command)
    ensures
        r == command_of(text@),
{
    if is_word(text, "new") {
        Command::New
    } else if is_word(text, "list") {
        Command::List
    } else if is_word(text, "save") {
        Command::Save
    } else if is_word(text, "quit") {
        Command::Quit
    } else if is_word(text, "remove") {
        Command::Remove
    } else if is_word(text, "copy") {
        Command::Copy
    } else if is_word(text, "clear") {
        Command::Clear
    } else if is_word(text, "search") {
        Command::Search
    } else if is_word(text, "forcequit") {
        Command::ForceQuit
    } else if is_word(text, "export") {
        Command::Export
    } else {
        Command::Help
    }
}

/// The state the command loop carries between commands.
#[derive(Debug, Clone, Copy, PartialEq, Eq)]
pub struct Session {
    /// Changes made since the last save.
    pub changes: usize,
    /// False once the session has ended.
    pub running: bool,
}

/// The session after `command` ran; `succeeded` tells whether its work was
/// done (an entry added or removed, the store written).
pub open spec fn next_session(s: Session, command: Command, succeeded: bool) -> Session {
    match command {
        Command::New | Command::Remove => if succeeded {
            Session {
                changes: if s.changes < usize::MAX { (s.changes + 1) as usize } else { s.changes },
                running: s.running,
            }
        } else {
            s
        },
        Command::Save => if succeeded {
            Session { changes: 0, running: s.running }
        } else {
            s
        },
        Command::Quit => Session { changes: s.changes, running: s.running && s.changes > 0 },
        Command::ForceQuit => Session { changes: s.changes, running: false },
        _ => s,
    }
}

impl Session {
    /// A running session with no changes.
    pub fn new() -> (r: Session)
        ensures
            r == (Session { changes: 0, running: true }),
    {
        Session { changes: 0, running: true }
    }

    /// Records that `command` ran, and whether its work was done.
    pub fn apply(&mut self, command: Command, succeeded: bool)
        ensures
            *final(self) == next_session(*old(self), command, succeeded),
    {
        match command {
            Command::New | Command::Remove => {
                if succeeded && self.changes < usize::MAX {
                    self.changes = self.changes + 1;
                }
            },
            Command::Save => {
                if succeeded {
                    self.changes = 0;
                }
            },
            Command::Quit => {
                self.running = self.running && !quit(self.changes);
            },
            Command::ForceQuit => {
                self.running = false;
            },
            _ => {},
        }
    }
}

/// Whether a request to quit ends the session: only when no change is
/// unsaved.
pub fn quit(changes: usize) -> (r: bool)
    ensures
        r == (changes == 0),
{
    changes == 0
}

} // verus!
