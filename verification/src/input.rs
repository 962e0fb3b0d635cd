//! What reaches the browser from the keyboard: raw key events, the state of
//! the modifier keys, and the actions that keys stand for.

use crate::bytes::str_eq;
use crate::scancode;
use vstd::prelude::*;

verus! {

/// One event of the front end. Key events carry the scancode of the key;
/// every other event (mouse, focus, resize) is `Other`.
#[derive(Clone, Copy, Debug, PartialEq, Eq, Structural)]
pub enum Input {
    KeyDown(u16),
    KeyUp(u16),
    Other,
}

/// Which modifier keys are held down.
#[derive(Clone, Copy, Debug, PartialEq, Eq, Structural)]
pub struct InputHandler {
    pub ctrl: bool,
    pub alt: bool,
    pub shift: bool,
}

/// Whether `code` is one of the two control keys.
pub open spec fn is_ctrl(code: u16) -> bool {
    code == scancode::L_CTRL || code == scancode::R_CTRL
}

/// Whether `code` is one of the two alt keys.
pub open spec fn is_alt(code: u16) -> bool {
    code == scancode::L_ALT || code == scancode::R_ALT
}

/// Whether `code` is one of the two shift keys.
pub open spec fn is_shift(code: u16) -> bool {
    code == scancode::L_SHIFT || code == scancode::R_SHIFT
}

impl Default for InputHandler {
    fn default() -> (handler: InputHandler)
        ensures
            handler == (InputHandler { ctrl: false, alt: false, shift: false }),
    {
        InputHandler { ctrl: false, alt: false, shift: false }
    }
}

impl InputHandler {
    /// The modifier state after `input`: pressing a modifier key sets its
    /// flag, releasing it clears the flag, and nothing else changes anything.
    pub open spec fn after(self, input: Input) -> InputHandler {
        match input {
            Input::KeyDown(code) => InputHandler {
                ctrl: self.ctrl || is_ctrl(code),
                alt: self.alt || is_alt(code),
                shift: self.shift || is_shift(code),
            },
            Input::KeyUp(code) => InputHandler {
                ctrl: self.ctrl && !is_ctrl(code),
                alt: self.alt && !is_alt(code),
                shift: self.shift && !is_shift(code),
            },
            Input::Other => self,
        }
    }

    /// Follows the modifier keys through `input`.
    pub fn handle_input(&mut self, input: Input)
        ensures
            *final(self) == old(self).after(input),
    {
        match input {
            Input::KeyDown(code) => {
                if code == scancode::L_CTRL || code == scancode::R_CTRL {
                    self.ctrl = true;
                } else if code == scancode::L_ALT || code == scancode::R_ALT {
                    self.alt = true;
                } else if code == scancode::L_SHIFT || code == scancode::R_SHIFT {
                    self.shift = true;
                }
            },
            Input::KeyUp(code) => {
                if code == scancode::L_CTRL || code == scancode::R_CTRL {
                    self.ctrl = false;
                } else if code == scancode::L_ALT || code == scancode::R_ALT {
                    self.alt = false;
                } else if code == scancode::L_SHIFT || code == scancode::R_SHIFT {
                    self.shift = false;
                }
            },
            Input::Other => {},
        }
    }
}

/// The commands that can be given by name.
#[derive(Clone, Copy, Debug, PartialEq, Eq, Structural)]
pub enum Command {
    Exit,
    ToggleShowHiddenFiles,
    ToggleShowSidePanel,
}

/// The command that `name` stands for, if it is the name of one.
pub open spec fn command_named(name: Seq<char>) -> Option<Command> {
    if name == "exit"@ {
        Some(Command::Exit)
    } else if name == "toggle_show_hidden_files"@ {
        Some(Command::ToggleShowHiddenFiles)
    } else if name == "toggle_show_side_panel"@ {
        Some(Command::ToggleShowSidePanel)
    } else {
        None
    }
}

impl Command {
    /// The command named `name`, or `None` where `name` names no command.
    pub fn from_name(name: &str) -> (command: Option<Command>)
        ensures
            command == command_named(name@),
    {
        if str_eq(name, "exit") {
            Some(Command::Exit)
        } else if str_eq(name, "toggle_show_hidden_files") {
            Some(Command::ToggleShowHiddenFiles)
        } else if str_eq(name, "toggle_show_side_panel") {
            Some(Command::ToggleShowSidePanel)
        } else {
            None
        }
    }
}

/// What the user can ask of the browser.
#[derive(Clone, Copy, Debug, PartialEq, Eq, Structural)]
pub enum Intent {
    /// Leave the program.
    Exit,
    /// Show hidden entries, or stop showing them.
    ToggleHidden,
    /// Show the side panel, or stop showing it.
    ToggleSidePanel,
    /// Move the focus one panel to the left.
    FocusLeft,
    /// Move the focus one panel to the right.
    FocusRight,
    /// Move the cursor one row up.
    MoveUp,
    /// Move the cursor one row down.
    MoveDown,
    /// Open the entry under the cursor.
    Enter,
    /// Go to the parent directory.
    Ascend,
    /// Mark the entry under the cursor, or unmark it.
    Mark,
    /// Ask for the marked entries to be deleted.
    RequestDelete,
    /// Answer the delete dialog with yes.
    ConfirmDelete,
    /// Answer the delete dialog with no.
    CancelDelete,
}

} // verus!
