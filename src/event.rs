//! Names of the events exchanged with windows and menus.
use vstd::prelude::*;

verus! {

/// Event label for new window (window or menu event).
pub const WINDOW_NEW_WINDOW_EVENT: &'static str = "windows://new_window";

/// Event label for close window (window or menu event).
pub const WINDOW_CLOSE_WINDOW_EVENT: &'static str = "windows://close_window";

/// Event label for open file (window or menu event).
pub const WINDOW_OPEN_FILE_EVENT: &'static str = "windows://open_file";

/// Event label for open files (global event).
pub const WINDOW_OPEN_FILES_EVENT: &'static str = "windows://open_files";

/// Event label for add folders (global event).
pub const WINDOW_ADD_FOLDERS_EVENT: &'static str = "windows://add_folders";

/// Event label for open folder (window or menu event).
pub const WINDOW_OPEN_FOLDER_EVENT: &'static str = "windows://open_folder";

/// Event label for close file (window or menu event).
pub const WINDOW_CLOSE_FILE_EVENT: &'static str = "windows://close_file";

/// Event label for close folder (window or menu event).
pub const WINDOW_CLOSE_FOLDER_EVENT: &'static str = "windows://close_folder";

} // verus!
