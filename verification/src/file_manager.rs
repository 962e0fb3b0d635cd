//! The browser's state and its transitions: cursor and panel navigation,
//! marking, and the delete dialog.
//!
//! The browser never touches the file system itself. A transition that needs
//! a directory read or a deletion returns a `Request`; whoever drives the
//! browser carries it out and, for a read, hands the outcome back through
//! `directory_read`.

use crate::cache::PreviewCache;
use crate::dir_content::{is_listing_of, referents, DirContent, IoError};
use crate::entry::{DirEntryInfo, Entry};
use crate::file_data::FileData;
use crate::input::{Command, Input, InputHandler, Intent};
use crate::recency::{accessed, distinct_keys, key_index};
use crate::scancode;
use crate::selection::SelectionSet;
use crate::state::{
    left_of, right_of, Dialog, FileManagerView, Panel, Request, PREVIEW_CACHE_SIZE,
};
use vstd::prelude::*;

verus! {

/// One row of the listing panel, as it is to be drawn.
#[derive(Debug, PartialEq, Eq)]
pub struct Row<'a> {
    /// The entry of the row.
    pub entry: &'a Entry,
    /// Whether the cursor is on the row.
    pub focused: bool,
    /// Whether the entry of the row is marked.
    pub marked: bool,
}

/// `Path::parent` of std: the path without its last component, if it has a
/// parent. Nothing is claimed of the result.
#[verifier::external_body]
fn parent_of(path: &String) -> (parent: Option<String>) {
    match std::path::Path::new(path).parent() {
        Some(parent) => Some(parent.to_string_lossy().into_owned()),
        None => None,
    }
}

impl Panel {
    /// The panel to the left, going round.
    pub fn left(self, show_side_panel: bool) -> (panel: Panel)
        ensures
            panel == left_of(self, show_side_panel),
    {
        match self {
            Panel::Listing => if show_side_panel {
                Panel::Side
            } else {
                Panel::Preview
            },
            Panel::Side => Panel::Preview,
            Panel::Preview => Panel::Listing,
        }
    }

    /// The panel to the right, going round.
    pub fn right(self, show_side_panel: bool) -> (panel: Panel)
        ensures
            panel == right_of(self, show_side_panel),
    {
        match self {
            Panel::Listing => Panel::Preview,
            Panel::Side => Panel::Listing,
            Panel::Preview => if show_side_panel {
                Panel::Side
            } else {
                Panel::Listing
            },
        }
    }
}

/// The browser.
pub struct FileManager {
    dir: DirContent,
    should_exit: bool,
    show_hidden_files: bool,
    show_side_panel: bool,
    input_handler: InputHandler,
    panel: Panel,
    row: usize,
    file_cache: PreviewCache,
    marked_files: SelectionSet,
    dialog: Option<Dialog>,
}

impl View for FileManager {
    type V = FileManagerView;

    closed spec fn view(&self) -> FileManagerView {
        FileManagerView {
            dir: self.dir,
            should_exit: self.should_exit,
            show_hidden_files: self.show_hidden_files,
            show_side_panel: self.show_side_panel,
            modifiers: self.input_handler,
            panel: self.panel,
            row: self.row,
            marked: self.marked_files@,
            dialog: self.dialog,
            cached: self.file_cache.entries(),
            cache_limit: self.file_cache.limit(),
        }
    }
}

impl FileManager {
    /// The parts are well formed, and the focus is on the side panel only
    /// while that panel is shown.
    pub closed spec fn wf(&self) -> bool {
        &&& self.dir.wf()
        &&& self.file_cache.wf()
        &&& self.marked_files.wf()
        &&& self@.focus_valid()
    }

    /// What holds of the state of every well-formed browser.
    pub proof fn lemma_wf(&self)
        requires
            self.wf(),
        ensures
            self@.dir.wf(),
            self@.marked.finite(),
            self@.cache_limit > 0,
            self@.cached.len() <= self@.cache_limit,
            distinct_keys(self@.cached),
            self@.focus_valid(),
    {
        self.marked_files.lemma_finite();
    }

    /// A browser on the directory `dir`: hidden entries shown, side panel not
    /// shown, focus on the first row of the listing, nothing marked, nothing
    /// cached, no dialog.
    pub fn new(dir: DirContent) -> (manager: FileManager)
        requires
            dir.wf(),
        ensures
            manager.wf(),
            manager@ == (FileManagerView {
                dir,
                should_exit: false,
                show_hidden_files: true,
                show_side_panel: false,
                modifiers: InputHandler { ctrl: false, alt: false, shift: false },
                panel: Panel::Listing,
                row: 0,
                marked: Set::empty(),
                dialog: None,
                cached: Seq::empty(),
                cache_limit: PREVIEW_CACHE_SIZE as nat,
            }),
    {
        FileManager {
            dir,
            should_exit: false,
            show_hidden_files: true,
            show_side_panel: false,
            input_handler: InputHandler::default(),
            panel: Panel::Listing,
            row: 0,
            file_cache: PreviewCache::new(PREVIEW_CACHE_SIZE),
            marked_files: SelectionSet::new(),
            dialog: None,
        }
    }

    /// A browser on the directory `path`, from what a scan of it gave. A
    /// scan that failed gives its error back; a scan that succeeded gives the
    /// browser that `new` makes of the directory's model.
    pub fn open(path: String, listing: Result<Vec<DirEntryInfo>, IoError>) -> (r: Result<
        FileManager,
        IoError,
    >)
        ensures
            match listing {
                Ok(found) => r matches Ok(manager) && manager.wf() && manager@ == (FileManagerView {
                    dir: manager@.dir,
                    should_exit: false,
                    show_hidden_files: true,
                    show_side_panel: false,
                    modifiers: InputHandler { ctrl: false, alt: false, shift: false },
                    panel: Panel::Listing,
                    row: 0,
                    marked: Set::empty(),
                    dialog: None,
                    cached: Seq::empty(),
                    cache_limit: PREVIEW_CACHE_SIZE as nat,
                }) && manager@.dir.path == path && is_listing_of(manager@.dir.children@, found@),
                Err(e) => r matches Err(error) && error == e,
            },
    {
        match DirContent::new(path, listing) {
            Ok(dir) => Ok(FileManager::new(dir)),
            Err(e) => Err(e),
        }
    }

    /// Whether the program is to end.
    pub fn should_exit(&self) -> (r: bool)
        ensures
            r == self@.should_exit,
    {
        self.should_exit
    }

    /// Whether hidden entries are shown.
    pub fn show_hidden_files(&self) -> (r: bool)
        ensures
            r == self@.show_hidden_files,
    {
        self.show_hidden_files
    }

    /// Whether the side panel is shown.
    pub fn show_side_panel(&self) -> (r: bool)
        ensures
            r == self@.show_side_panel,
    {
        self.show_side_panel
    }

    /// The panel that has the focus, and the row of the cursor.
    pub fn cursor_pos(&self) -> (r: (Panel, usize))
        ensures
            r == (self@.panel, self@.row),
    {
        (self.panel, self.row)
    }

    /// Which modifier keys are held down.
    pub fn input_handler(&self) -> (r: InputHandler)
        ensures
            r == self@.modifiers,
    {
        self.input_handler
    }

    /// The dialog that is open, if one is.
    pub fn dialog(&self) -> (r: Option<Dialog>)
        ensures
            r == self@.dialog,
    {
        self.dialog
    }

    /// The directory that is listed.
    pub fn dir(&self) -> (r: &DirContent)
        ensures
            *r == self@.dir,
    {
        &self.dir
    }

    /// How many paths are marked: the number that the delete dialog asks about.
    pub fn marked_count(&self) -> (n: usize)
        requires
            self.wf(),
        ensures
            n == self@.marked.len(),
    {
        self.marked_files.len()
    }

    /// Whether `path` is marked.
    pub fn is_marked(&self, path: &String) -> (r: bool)
        ensures
            r == self@.marked.contains(path@),
    {
        self.marked_files.contains(path)
    }

    /// The entries that are shown, in listing order. Rows are counted in this
    /// sequence.
    pub fn iter_dir(&self) -> (shown: Vec<&Entry>)
        ensures
            referents(shown@) == self@.visible(),
    {
        self.dir.visible(self.show_hidden_files)
    }

    /// The entry under the cursor, if the cursor is on one.
    pub fn focused_entry(&self) -> (entry: Option<&Entry>)
        ensures
            match entry {
                Some(e) => self@.focused() == Some(*e),
                None => self@.focused() is None,
            },
    {
        let shown = self.iter_dir();
        if self.row < shown.len() {
            Some(shown[self.row])
        } else {
            None
        }
    }

    /// The rows of the listing panel: the shown entries in order, each with
    /// whether the cursor is on it and whether it is marked.
    pub fn rows(&self) -> (rows: Vec<Row<'_>>)
        ensures
            rows@.len() == self@.visible().len(),
            forall|i: int|
                0 <= i < rows@.len() ==> {
                    &&& *(#[trigger] rows@[i]).entry == self@.visible()[i]
                    &&& rows@[i].focused == (i == self@.row)
                    &&& rows@[i].marked == self@.marked.contains(self@.visible()[i].path@)
                },
    {
        let shown = self.iter_dir();
        let mut rows: Vec<Row<'_>> = Vec::new();
        let mut i: usize = 0;
        while i < shown.len()
            invariant
                i <= shown@.len(),
                referents(shown@) == self@.visible(),
                rows@.len() == i,
                forall|k: int|
                    0 <= k < i ==> {
                        &&& *(#[trigger] rows@[k]).entry == self@.visible()[k]
                        &&& rows@[k].focused == (k == self@.row)
                        &&& rows@[k].marked == self@.marked.contains(self@.visible()[k].path@)
                    },
            decreases shown@.len() - i,
        {
            let entry = shown[i];
            let marked = self.marked_files.contains(&entry.path);
            rows.push(Row { entry, focused: i == self.row, marked });
            i += 1;
        }
        rows
    }

    /// The preview of the entry under the cursor, or `None` where the cursor
    /// is on no entry. The preview is kept in the cache under the path of the
    /// entry: where the cache holds it, it is returned and becomes the most
    /// recently used; else `builder` makes it from the entry, and where the
    /// cache was full the least recently used preview is dropped.
    pub fn preview<F: FnOnce(&Entry) -> FileData>(&mut self, builder: F) -> (preview: Option<
        &FileData,
    >)
        requires
            old(self).wf(),
            old(self)@.focused() matches Some(e) ==> builder.requires((&e,)),
        ensures
            final(self).wf(),
            final(self)@ == (FileManagerView { cached: final(self)@.cached, ..old(self)@ }),
            match old(self)@.focused() {
                Some(e) => preview matches Some(data) && final(self)@.cached == accessed(
                    old(self)@.cached,
                    old(self)@.cache_limit,
                    e.path@,
                    *data,
                ) && match key_index(old(self)@.cached, e.path@) {
                    Some(i) => *data == old(self)@.cached[i].1,
                    None => builder.ensures((&e,), *data),
                },
                None => preview is None && final(self)@.cached == old(self)@.cached,
            },
    {
        let entry = match self.focused_entry() {
            Some(entry) => entry.clone(),
            None => {
                return None;
            },
        };
        let path = entry.path.clone();
        let build = move || -> (data: FileData)
            requires
                builder.requires((&entry,)),
            ensures
                builder.ensures((&entry,), data),
            { builder(&entry) };
        Some(self.file_cache.get_or_build(path, build))
    }

    /// Carries out a command.
    pub fn handle_command(&mut self, command: Command)
        requires
            old(self).wf(),
        ensures
            final(self).wf(),
            final(self)@ == old(self)@.command(command),
    {
        match command {
            Command::Exit => {
                self.should_exit = true;
            },
            Command::ToggleShowHiddenFiles => {
                self.show_hidden_files = !self.show_hidden_files;
            },
            Command::ToggleShowSidePanel => {
                self.show_side_panel = !self.show_side_panel;
                if !self.show_side_panel && self.panel == Panel::Side {
                    self.panel = Panel::Listing;
                }
            },
        }
    }

    /// The action that `input` stands for in the present state, if any.
    pub fn intent_for(&self, input: Input) -> (intent: Option<Intent>)
        ensures
            intent == self@.intent_of(input),
    {
        match input {
            Input::KeyDown(code) => if code == scancode::Q {
                Some(Intent::Exit)
            } else if code == scancode::H {
                if self.input_handler.alt {
                    Some(Intent::ToggleHidden)
                } else {
                    None
                }
            } else if code == scancode::S {
                if self.input_handler.alt {
                    Some(Intent::ToggleSidePanel)
                } else {
                    None
                }
            } else if code == scancode::LEFT {
                Some(Intent::FocusLeft)
            } else if code == scancode::RIGHT {
                Some(Intent::FocusRight)
            } else if code == scancode::UP {
                Some(Intent::MoveUp)
            } else if code == scancode::DOWN {
                Some(Intent::MoveDown)
            } else if code == scancode::ENTER {
                Some(Intent::Enter)
            } else if code == scancode::PAGEUP {
                if self.panel == Panel::Listing {
                    Some(Intent::Ascend)
                } else {
                    None
                }
            } else if code == scancode::APOSTROPHE {
                Some(Intent::Mark)
            } else if code == scancode::Y {
                Some(Intent::ConfirmDelete)
            } else if code == scancode::N {
                Some(Intent::CancelDelete)
            } else if code == scancode::D {
                if self.panel == Panel::Listing {
                    Some(Intent::RequestDelete)
                } else {
                    None
                }
            } else {
                None
            },
            _ => None,
        }
    }

    /// What going to the parent asks for, given the parent of the current
    /// directory: that the parent be read, or nothing where there is none.
    pub fn ascend_request(parent: Option<String>) -> (request: Request)
        ensures
            request == match parent {
                Some(path) => Request::ReadDirectory(path),
                None => Request::Nothing,
            },
    {
        match parent {
            Some(path) => Request::ReadDirectory(path),
            None => Request::Nothing,
        }
    }

    /// Carries out `intent` and returns the outside work that it asks for.
    pub fn apply(&mut self, intent: Intent) -> (request: Request)
        requires
            old(self).wf(),
        ensures
            final(self).wf(),
            final(self)@ == old(self)@.apply(intent),
            old(self)@.answered_by(intent, request),
    {
        match intent {
            Intent::Exit => {
                self.handle_command(Command::Exit);
                Request::Nothing
            },
            Intent::ToggleHidden => {
                self.handle_command(Command::ToggleShowHiddenFiles);
                Request::Nothing
            },
            Intent::ToggleSidePanel => {
                self.handle_command(Command::ToggleShowSidePanel);
                Request::Nothing
            },
            Intent::FocusLeft => {
                self.panel = self.panel.left(self.show_side_panel);
                Request::Nothing
            },
            Intent::FocusRight => {
                self.panel = self.panel.right(self.show_side_panel);
                Request::Nothing
            },
            Intent::MoveUp => {
                if self.row > 0 {
                    self.row = self.row - 1;
                }
                Request::Nothing
            },
            Intent::MoveDown => {
                let count = self.iter_dir().len();
                if count > 0 {
                    if self.row < count - 1 {
                        self.row = self.row + 1;
                    } else {
                        self.row = count - 1;
                    }
                }
                Request::Nothing
            },
            Intent::Enter => {
                if self.panel != Panel::Listing {
                    return Request::Nothing;
                }
                let target = match self.focused_entry() {
                    Some(entry) => if entry.is_dir() {
                        Some(entry.path.clone())
                    } else {
                        None
                    },
                    None => {
                        return Request::Nothing;
                    },
                };
                match target {
                    Some(path) => Request::ReadDirectory(path),
                    None => {
                        self.panel = Panel::Preview;
                        Request::Nothing
                    },
                }
            },
            Intent::Ascend => Self::ascend_request(parent_of(&self.dir.path)),
            Intent::Mark => {
                if self.panel != Panel::Listing {
                    return Request::Nothing;
                }
                let path = match self.focused_entry() {
                    Some(entry) => entry.path.clone(),
                    None => {
                        return Request::Nothing;
                    },
                };
                self.marked_files.toggle(path);
                Request::Nothing
            },
            Intent::RequestDelete => {
                if !self.marked_files.is_empty() {
                    self.dialog = Some(Dialog::ConfirmDelete);
                }
                Request::Nothing
            },
            Intent::ConfirmDelete => {
                let paths = self.marked_files.drain();
                self.dialog = None;
                Request::DeleteAll(paths)
            },
            Intent::CancelDelete => {
                self.dialog = None;
                Request::Nothing
            },
        }
    }

    /// Takes one event of the front end: carries out the action that it
    /// stands for, or, where it stands for none, follows the modifier keys.
    /// Returns the outside work that the action asks for. Once the program is
    /// to end, events are ignored.
    pub fn on_input(&mut self, input: Input) -> (request: Request)
        requires
            old(self).wf(),
        ensures
            final(self).wf(),
            final(self)@ == old(self)@.step(input),
            match old(self)@.triggered(input) {
                Some(intent) => old(self)@.answered_by(intent, request),
                None => request is Nothing,
            },
    {
        if self.should_exit {
            return Request::Nothing;
        }
        match self.intent_for(input) {
            Some(intent) => self.apply(intent),
            None => {
                self.input_handler.handle_input(input);
                Request::Nothing
            },
        }
    }

    /// Takes the outcome of a directory scan that a `ReadDirectory` request
    /// asked for. A scan that succeeded replaces the listing and puts the
    /// cursor on the first row. A scan that failed changes nothing.
    pub fn directory_read(&mut self, path: String, listing: Result<Vec<DirEntryInfo>, IoError>)
        requires
            old(self).wf(),
        ensures
            final(self).wf(),
            match listing {
                Ok(found) => final(self)@ == (FileManagerView {
                    dir: final(self)@.dir,
                    row: 0,
                    ..old(self)@
                }) && final(self)@.dir.path == path && is_listing_of(
                    final(self)@.dir.children@,
                    found@,
                ),
                Err(_) => final(self)@ == old(self)@,
            },
    {
        match DirContent::new(path, listing) {
            Ok(dir) => {
                self.dir = dir;
                self.row = 0;
            },
            Err(_) => {},
        }
    }
}

} // verus!
