//! The logic of a small text editor: the registry of open files, the
//! character index of the document, literal search over that index, and the
//! per-character highlighting of the matches.

pub mod files;
pub mod highlight;
pub mod index;
pub mod keys;
pub mod search;
pub mod text;

pub use files::{open_file_modal, save_current_file, DialogEvent, FileState, FileWrite, OpenFile};
pub use highlight::{get_text_body, TextStyle};
pub use index::{tokenize_text, TokenIndex};
pub use keys::{process_multiple_keys, Key, PressedKeys, ShortcutAction, ShortcutTimer};
pub use search::search_token_text;
