//! Core of a terminal directory browser: the directory model and file
//! classification, a bounded preview cache, the cursor and panel navigation
//! state machine, and the selection and delete-confirmation flow.

pub mod bytes;
pub mod cache;
pub mod dir_content;
pub mod entry;
pub mod file_data;
pub mod file_manager;
pub mod file_type;
pub mod input;
pub mod recency;
pub mod scancode;
pub mod selection;
pub mod state;

pub use crate::cache::PreviewCache;
pub use crate::dir_content::{DirContent, IoError};
pub use crate::entry::{DirEntryInfo, Entry};
pub use crate::file_data::{FileData, PreviewSource};
pub use crate::file_manager::{FileManager, Row};
pub use crate::file_type::FileType;
pub use crate::input::{Command, Input, InputHandler, Intent};
pub use crate::selection::SelectionSet;
pub use crate::state::{Dialog, Panel, Request};
