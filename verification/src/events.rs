//! What a key does to a session.
//!
//! The loop that reads keys and draws rows lives outside this library. It
//! hands each key to the session and goes on, or stops, as the answer says.
//! A file is never opened while the session runs: the session ends and names
//! the file, and the caller opens it after the terminal has been given back.

use crate::tui::{lemma_toggle_keeps_cursor, AppView};
use vstd::prelude::*;
use vstd::string::StringExecFns;

verus! {

/// A key, as far as the session tells keys apart.
#[derive(Clone, Copy, Debug, PartialEq, Eq, Structural)]
pub enum Key {
    Char(char),
    Esc,
    Enter,
    Up,
    Down,
    Other,
}

/// What a key asks for.
#[derive(Clone, Copy, Debug, PartialEq, Eq, Structural)]
pub enum Command {
    Quit,
    MoveDown,
    MoveUp,
    Activate,
    Ignore,
}

impl Key {
    /// `q` and Esc quit, the arrow keys and `j` / `k` move the cursor, Enter
    /// activates the row under it, and every other key does nothing.
    pub open spec fn command(self) -> Command {
        match self {
            Key::Char(c) => if c == 'q' {
                Command::Quit
            } else if c == 'j' {
                Command::MoveDown
            } else if c == 'k' {
                Command::MoveUp
            } else {
                Command::Ignore
            },
            Key::Esc => Command::Quit,
            Key::Down => Command::MoveDown,
            Key::Up => Command::MoveUp,
            Key::Enter => Command::Activate,
            Key::Other => Command::Ignore,
        }
    }

    /// Tells what the key asks for.
    pub fn to_command(self) -> (command: Command)
        ensures
            command == self.command(),
    {
        match self {
            Key::Char(c) => {
                if c == 'q' {
                    Command::Quit
                } else if c == 'j' {
                    Command::MoveDown
                } else if c == 'k' {
                    Command::MoveUp
                } else {
                    Command::Ignore
                }
            },
            Key::Esc => Command::Quit,
            Key::Down => Command::MoveDown,
            Key::Up => Command::MoveUp,
            Key::Enter => Command::Activate,
            Key::Other => Command::Ignore,
        }
    }
}

/// What is left to do once the session has ended.
#[derive(Debug)]
pub enum PostExitAction {
    Nothing,
    OpenFile(String),
}

/// Where the session stands after a key.
#[derive(Debug)]
pub enum Transition {
    Browsing,
    Exited(PostExitAction),
}

/// What a `Transition` stands for in contracts.
pub enum TransitionView {
    Browsing,
    ExitedIdle,
    ExitedToOpen(Seq<char>),
}

impl View for Transition {
    type V = TransitionView;

    open spec fn view(&self) -> TransitionView {
        match self {
            Transition::Browsing => TransitionView::Browsing,
            Transition::Exited(PostExitAction::Nothing) => TransitionView::ExitedIdle,
            Transition::Exited(PostExitAction::OpenFile(path)) => TransitionView::ExitedToOpen(
                path@,
            ),
        }
    }
}

/// The program that opens a file: the one the user has named, or else the
/// system's plain editor.
pub open spec fn editor_for(preferred: Option<String>, on_windows: bool) -> Seq<char> {
    match preferred {
        Some(editor) => editor@,
        None => if on_windows {
            "notepad"@
        } else {
            "vim"@
        },
    }
}

/// Picks the program that opens a file.
pub fn editor_command(preferred: Option<String>, on_windows: bool) -> (editor: String)
    ensures
        editor@ == editor_for(preferred, on_windows),
{
    match preferred {
        Some(editor) => editor,
        None => if on_windows {
            String::from_str("notepad")
        } else {
            String::from_str("vim")
        },
    }
}

impl AppView {
    /// The state that a command leaves behind. Only moving the cursor and
    /// activating a directory change anything.
    pub open spec fn after_command(self, command: Command) -> AppView {
        match command {
            Command::MoveDown => self.after_next(),
            Command::MoveUp => self.after_previous(),
            Command::Activate => match self.selection {
                Some(i) => if self.visible()[i].is_dir {
                    self.after_toggle(self.visible()[i].path)
                } else {
                    self
                },
                None => self,
            },
            Command::Quit => self,
            Command::Ignore => self,
        }
    }

    /// Whether a command ends the session, and with what. Quitting ends it
    /// with nothing to do, activating a file ends it with that file to open.
    pub open spec fn transition_on(self, command: Command) -> TransitionView {
        match command {
            Command::Quit => TransitionView::ExitedIdle,
            Command::Activate => match self.selection {
                Some(i) => if self.visible()[i].is_dir {
                    TransitionView::Browsing
                } else {
                    TransitionView::ExitedToOpen(self.visible()[i].path)
                },
                None => TransitionView::Browsing,
            },
            Command::MoveDown => TransitionView::Browsing,
            Command::MoveUp => TransitionView::Browsing,
            Command::Ignore => TransitionView::Browsing,
        }
    }
}

/// No command takes the cursor off the rows.
pub proof fn lemma_command_keeps_cursor(s: AppView, command: Command)
    requires
        s.wf(),
    ensures
        s.after_command(command).wf(),
{
    if command == Command::Activate {
        if let Some(i) = s.selection {
            lemma_toggle_keeps_cursor(s, s.visible()[i].path);
        }
    }
}

} // verus!
