//! The browser's state as a mathematical value, and what each action and
//! each key does to it.

use crate::dir_content::{visible_entries, DirContent};
use crate::entry::Entry;
use crate::file_data::FileData;
use crate::input::{Command, Input, InputHandler, Intent};
use crate::scancode;
use crate::selection::{lemma_toggle_parity, occurrences, path_views, toggled, toggled_all};
use vstd::prelude::*;

verus! {

/// The three places where the focus can be.
#[derive(Clone, Copy, Debug, PartialEq, Eq, Structural)]
pub enum Panel {
    Side,
    Listing,
    Preview,
}

/// The dialog that lies over the panels.
#[derive(Clone, Copy, Debug, PartialEq, Eq, Structural)]
pub enum Dialog {
    ConfirmDelete,
}

/// Outside work that a transition asks for.
#[derive(Debug, PartialEq, Eq)]
pub enum Request {
    /// Nothing is to be done.
    Nothing,
    /// Scan the directory at this path and hand the outcome to
    /// `FileManager::directory_read`.
    ReadDirectory(String),
    /// Move every one of these paths to the trash.
    DeleteAll(Vec<String>),
}

/// How many previews the browser keeps.
pub const PREVIEW_CACHE_SIZE: usize = 5;

/// The panel to the left of `panel`, going round; the side panel is passed
/// over while it is not shown.
pub open spec fn left_of(panel: Panel, show_side_panel: bool) -> Panel {
    match panel {
        Panel::Listing => if show_side_panel {
            Panel::Side
        } else {
            Panel::Preview
        },
        Panel::Side => Panel::Preview,
        Panel::Preview => Panel::Listing,
    }
}

/// The panel to the right of `panel`, going round; the side panel is passed
/// over while it is not shown.
pub open spec fn right_of(panel: Panel, show_side_panel: bool) -> Panel {
    match panel {
        Panel::Listing => Panel::Preview,
        Panel::Side => Panel::Listing,
        Panel::Preview => if show_side_panel {
            Panel::Side
        } else {
            Panel::Listing
        },
    }
}

/// The row above `row`; the first row stays.
pub open spec fn row_above(row: usize) -> usize {
    if row > 0 {
        (row - 1) as usize
    } else {
        0
    }
}

/// The row below `row` in a listing of `count` rows: the next row, but never
/// past the last one; in an empty listing the row stays as it is.
pub open spec fn row_below(row: usize, count: nat) -> usize {
    if count == 0 {
        row
    } else if row + 1 < count {
        (row + 1) as usize
    } else {
        (count - 1) as usize
    }
}

/// The browser's state as a mathematical value.
#[verifier::ext_equal]
pub struct FileManagerView {
    /// The directory that is listed.
    pub dir: DirContent,
    /// Whether the program is to end.
    pub should_exit: bool,
    /// Whether hidden entries are shown.
    pub show_hidden_files: bool,
    /// Whether the side panel is shown.
    pub show_side_panel: bool,
    /// Which modifier keys are held down.
    pub modifiers: InputHandler,
    /// The panel that has the focus.
    pub panel: Panel,
    /// The row of the cursor, counted in the shown entries.
    pub row: usize,
    /// The marked paths.
    pub marked: Set<Seq<char>>,
    /// The dialog that is open, if one is.
    pub dialog: Option<Dialog>,
    /// The cached previews with their paths, the most recently used first.
    pub cached: Seq<(Seq<char>, FileData)>,
    /// How many previews are kept at most.
    pub cache_limit: nat,
}

impl FileManagerView {
    /// The entries that are shown.
    pub open spec fn visible(self) -> Seq<Entry> {
        visible_entries(self.dir.children@, self.show_hidden_files)
    }

    /// The entry under the cursor, if the cursor is on one.
    pub open spec fn focused(self) -> Option<Entry> {
        if self.row < self.visible().len() {
            Some(self.visible()[self.row as int])
        } else {
            None
        }
    }

    /// Whether the focus is where it can be: on the side panel only while
    /// that panel is shown.
    pub open spec fn focus_valid(self) -> bool {
        self.panel == Panel::Side ==> self.show_side_panel
    }

    /// The state after a command.
    pub open spec fn command(self, command: Command) -> FileManagerView {
        match command {
            Command::Exit => FileManagerView { should_exit: true, ..self },
            Command::ToggleShowHiddenFiles => FileManagerView {
                show_hidden_files: !self.show_hidden_files,
                ..self
            },
            Command::ToggleShowSidePanel => FileManagerView {
                show_side_panel: !self.show_side_panel,
                panel: if self.show_side_panel && self.panel == Panel::Side {
                    Panel::Listing
                } else {
                    self.panel
                },
                ..self
            },
        }
    }

    /// The path of the directory that `Enter` would open: that of the entry
    /// under the cursor, where the listing has the focus and that entry is a
    /// directory.
    pub open spec fn entering(self) -> Option<Seq<char>> {
        match self.focused() {
            Some(e) => if self.panel == Panel::Listing && e.is_directory() {
                Some(e.path@)
            } else {
                None
            },
            None => None,
        }
    }

    /// The state after `Enter`. On a directory nothing changes yet: the new
    /// listing comes with `directory_read`. On any other entry the focus goes
    /// to the preview. Without the focus on the listing, or without an entry
    /// under the cursor, nothing happens.
    pub open spec fn enter(self) -> FileManagerView {
        match self.focused() {
            Some(e) => if self.panel == Panel::Listing && !e.is_directory() {
                FileManagerView { panel: Panel::Preview, ..self }
            } else {
                self
            },
            None => self,
        }
    }

    /// The state after `Mark`: the path of the entry under the cursor is
    /// toggled. Without the focus on the listing, or without an entry under
    /// the cursor, nothing happens.
    pub open spec fn mark(self) -> FileManagerView {
        match self.focused() {
            Some(e) => if self.panel == Panel::Listing {
                FileManagerView { marked: toggled(self.marked, e.path@), ..self }
            } else {
                self
            },
            None => self,
        }
    }

    /// The state after `intent`.
    pub open spec fn apply(self, intent: Intent) -> FileManagerView {
        match intent {
            Intent::Exit => self.command(Command::Exit),
            Intent::ToggleHidden => self.command(Command::ToggleShowHiddenFiles),
            Intent::ToggleSidePanel => self.command(Command::ToggleShowSidePanel),
            Intent::FocusLeft => FileManagerView {
                panel: left_of(self.panel, self.show_side_panel),
                ..self
            },
            Intent::FocusRight => FileManagerView {
                panel: right_of(self.panel, self.show_side_panel),
                ..self
            },
            Intent::MoveUp => FileManagerView { row: row_above(self.row), ..self },
            Intent::MoveDown => FileManagerView {
                row: row_below(self.row, self.visible().len()),
                ..self
            },
            Intent::Enter => self.enter(),
            Intent::Ascend => self,
            Intent::Mark => self.mark(),
            Intent::RequestDelete => if self.marked.len() > 0 {
                FileManagerView { dialog: Some(Dialog::ConfirmDelete), ..self }
            } else {
                self
            },
            Intent::ConfirmDelete => FileManagerView {
                marked: Set::empty(),
                dialog: None,
                ..self
            },
            Intent::CancelDelete => FileManagerView { dialog: None, ..self },
        }
    }

    /// Whether `request` is what `intent` asks for in this state. `Enter` on a
    /// directory asks for that directory to be read. `Ascend` asks for the
    /// parent to be read where the current directory has one, and for nothing
    /// where it has none. `ConfirmDelete` asks for the marked paths, each once,
    /// to be deleted. Everything else asks for nothing.
    pub open spec fn answered_by(self, intent: Intent, request: Request) -> bool {
        match intent {
            Intent::Enter => match self.entering() {
                Some(path) => request matches Request::ReadDirectory(p) && p@ == path,
                None => request is Nothing,
            },
            Intent::Ascend => request is Nothing || request is ReadDirectory,
            Intent::ConfirmDelete => request matches Request::DeleteAll(paths) && path_views(
                paths@,
            ).no_duplicates() && path_views(paths@).to_set() == self.marked,
            _ => request is Nothing,
        }
    }

    /// The action that `input` stands for, if it stands for one. Only a key
    /// going down does. The two toggles need an alt key held down; going to
    /// the parent and asking for a deletion need the focus on the listing.
    pub open spec fn intent_of(self, input: Input) -> Option<Intent> {
        match input {
            Input::KeyDown(code) => if code == scancode::Q {
                Some(Intent::Exit)
            } else if code == scancode::H {
                if self.modifiers.alt {
                    Some(Intent::ToggleHidden)
                } else {
                    None
                }
            } else if code == scancode::S {
                if self.modifiers.alt {
                    Some(Intent::ToggleSidePanel)
                } else {
                    None
                }
            } else if code == scancode::LEFT {
                Some(Intent::FocusLeft)
            } else if code == scancode::RIGHT {
                Some(Intent::FocusRight)
            } else if code == scancode::UP {
                Some(Intent::MoveUp)
            } else if code == scancode::DOWN {
                Some(Intent::MoveDown)
            } else if code == scancode::ENTER {
                Some(Intent::Enter)
            } else if code == scancode::PAGEUP {
                if self.panel == Panel::Listing {
                    Some(Intent::Ascend)
                } else {
                    None
                }
            } else if code == scancode::APOSTROPHE {
                Some(Intent::Mark)
            } else if code == scancode::Y {
                Some(Intent::ConfirmDelete)
            } else if code == scancode::N {
                Some(Intent::CancelDelete)
            } else if code == scancode::D {
                if self.panel == Panel::Listing {
                    Some(Intent::RequestDelete)
                } else {
                    None
                }
            } else {
                None
            },
            _ => None,
        }
    }

    /// The state after the actions `intents`, one after the other.
    pub open spec fn run(self, intents: Seq<Intent>) -> FileManagerView
        decreases intents.len(),
    {
        if intents.len() == 0 {
            self
        } else {
            self.run(intents.drop_last()).apply(intents.last())
        }
    }

    /// The paths that the `Mark` actions among `intents` toggle, in the order
    /// in which they are toggled.
    pub open spec fn toggles(self, intents: Seq<Intent>) -> Seq<Seq<char>>
        decreases intents.len(),
    {
        if intents.len() == 0 {
            Seq::empty()
        } else {
            let earlier = self.toggles(intents.drop_last());
            let before = self.run(intents.drop_last());
            match before.focused() {
                Some(e) => if intents.last() == Intent::Mark && before.panel == Panel::Listing {
                    earlier.push(e.path@)
                } else {
                    earlier
                },
                None => earlier,
            }
        }
    }

    /// The action that `input` sets off, if it sets one off: the action that
    /// it stands for, unless the program is to end. Once it is, no input sets
    /// off anything.
    pub open spec fn triggered(self, input: Input) -> Option<Intent> {
        if self.should_exit {
            None
        } else {
            self.intent_of(input)
        }
    }

    /// The state after `input`. Once the program is to end, the state stays as
    /// it is. Else it is the state after the action that `input` stands for,
    /// or, where it stands for none, the same state with the modifier keys
    /// followed.
    pub open spec fn step(self, input: Input) -> FileManagerView {
        if self.should_exit {
            self
        } else {
            match self.intent_of(input) {
                Some(intent) => self.apply(intent),
                None => FileManagerView { modifiers: self.modifiers.after(input), ..self },
            }
        }
    }
}

/// Moving down in a listing that shows at least one entry leaves the cursor
/// on one of its rows.
pub proof fn lemma_move_down_in_range(state: FileManagerView)
    requires
        state.visible().len() > 0,
    ensures
        state.apply(Intent::MoveDown).visible() == state.visible(),
        state.apply(Intent::MoveDown).row < state.visible().len(),
{
}

/// Moving up in a listing that shows at least one entry leaves the cursor on
/// one of its rows, provided the cursor was no further than one row past the
/// last. (Hiding entries does not move the cursor, so it can be further.)
pub proof fn lemma_move_up_in_range(state: FileManagerView)
    requires
        state.visible().len() > 0,
        state.row <= state.visible().len(),
    ensures
        state.apply(Intent::MoveUp).visible() == state.visible(),
        state.apply(Intent::MoveUp).row < state.visible().len(),
{
}

/// While no entry is shown, moving down, opening and marking change nothing
/// and ask for nothing.
pub proof fn lemma_empty_listing(state: FileManagerView, request: Request)
    requires
        state.visible().len() == 0,
    ensures
        state.apply(Intent::MoveDown) == state,
        state.apply(Intent::Enter) == state,
        state.apply(Intent::Mark) == state,
        state.answered_by(Intent::MoveDown, request) <==> request is Nothing,
        state.answered_by(Intent::Enter, request) <==> request is Nothing,
        state.answered_by(Intent::Mark, request) <==> request is Nothing,
{
}

/// Confirming the deletion always leaves nothing marked and no dialog open,
/// whatever the state was and whatever becomes of the deletion itself.
pub proof fn lemma_confirm_delete(state: FileManagerView)
    ensures
        state.apply(Intent::ConfirmDelete).marked == Set::<Seq<char>>::empty(),
        state.apply(Intent::ConfirmDelete).dialog is None,
        !state.should_exit ==> state.step(Input::KeyDown(scancode::Y)) == state.apply(
            Intent::ConfirmDelete,
        ),
{
}

/// Cancelling the deletion always closes the dialog and leaves the marks as
/// they are.
pub proof fn lemma_cancel_delete(state: FileManagerView)
    ensures
        state.apply(Intent::CancelDelete).dialog is None,
        state.apply(Intent::CancelDelete).marked == state.marked,
        !state.should_exit ==> state.step(Input::KeyDown(scancode::N)) == state.apply(
            Intent::CancelDelete,
        ),
{
}

/// Asking for a deletion opens the dialog if and only if something is marked,
/// and never touches the marks.
pub proof fn lemma_request_delete(state: FileManagerView)
    requires
        state.dialog is None,
    ensures
        state.apply(Intent::RequestDelete).dialog == Some(Dialog::ConfirmDelete)
            <==> state.marked.len() > 0,
        state.apply(Intent::RequestDelete).marked == state.marked,
{
}

/// The focus never comes to rest on a side panel that is not shown: no
/// command, action or input puts it there.
pub proof fn lemma_focus_stays_valid(
    state: FileManagerView,
    command: Command,
    intent: Intent,
    input: Input,
)
    requires
        state.focus_valid(),
    ensures
        state.command(command).focus_valid(),
        state.apply(intent).focus_valid(),
        state.step(input).focus_valid(),
{
}

/// Leaving is final: once the program is to end, no input changes the state,
/// and the key that asks to leave always brings that about.
pub proof fn lemma_exit_is_final(state: FileManagerView, input: Input)
    ensures
        state.step(Input::KeyDown(scancode::Q)).should_exit,
        state.should_exit ==> state.step(input) == state,
        state.step(input).should_exit ==> state.should_exit || input == Input::KeyDown(
            scancode::Q,
        ),
{
}

/// Through any sequence of actions without a confirmed deletion, the marks
/// are the first marks with every toggled path toggled in turn. So a path has
/// changed sides exactly when the `Mark` actions toggled it an odd number of
/// times; starting with nothing marked, it is marked if and only if they did.
pub proof fn lemma_marks_follow_toggles(
    state: FileManagerView,
    intents: Seq<Intent>,
    path: Seq<char>,
)
    requires
        forall|i: int| 0 <= i < intents.len() ==> intents[i] != Intent::ConfirmDelete,
    ensures
        state.run(intents).marked == toggled_all(state.marked, state.toggles(intents)),
        state.run(intents).marked.contains(path) <==> (state.marked.contains(path) != (
        occurrences(state.toggles(intents), path) % 2 == 1)),
        state.marked == Set::<Seq<char>>::empty() ==> (state.run(intents).marked.contains(path)
            <==> occurrences(state.toggles(intents), path) % 2 == 1),
    decreases intents.len(),
{
    if intents.len() > 0 {
        let earlier = intents.drop_last();
        lemma_marks_follow_toggles(state, earlier, path);
        let before = state.run(earlier);
        if before.focused() is Some && intents.last() == Intent::Mark && before.panel
            == Panel::Listing {
            assert(state.toggles(intents).drop_last() =~= state.toggles(earlier));
        }
    }
    lemma_toggle_parity(state.marked, state.toggles(intents), path);
}

} // verus!
