//! Menu items for window commands, as plain values for the host to build.
use vstd::prelude::*;

use crate::event::{
    WINDOW_CLOSE_FILE_EVENT, WINDOW_CLOSE_FOLDER_EVENT, WINDOW_CLOSE_WINDOW_EVENT, WINDOW_NEW_WINDOW_EVENT,
    WINDOW_OPEN_FILE_EVENT, WINDOW_OPEN_FOLDER_EVENT,
};

verus! {

/// A menu entry.
pub enum MenuEntry {
    /// A command item: the event it sends, its title and its shortcut.
    Custom { id: String, title: String, accelerator: String },
    /// A separator line.
    Separator,
    /// The quit item.
    Quit,
}

/// A titled submenu.
pub struct Submenu {
    pub title: String,
    pub items: Vec<MenuEntry>,
}

/// The entry is a command item with this event, title and shortcut.
pub open spec fn is_item(e: MenuEntry, id: Seq<char>, title: Seq<char>, accelerator: Seq<char>) -> bool {
    match e {
        MenuEntry::Custom { id: i, title: t, accelerator: a } => i@ == id && t@ == title && a@ == accelerator,
        _ => false,
    }
}

/// The default entries: new window, open file, open folder, close file,
/// close folder, close window, a separator and quit.
pub open spec fn default_entries(items: Seq<MenuEntry>) -> bool {
    &&& items.len() == 8
    &&& is_item(items[0], WINDOW_NEW_WINDOW_EVENT@, "New Window"@, "CTRL+SHIFT+N"@)
    &&& is_item(items[1], WINDOW_OPEN_FILE_EVENT@, "Open File"@, "CTRL+O"@)
    &&& is_item(items[2], WINDOW_OPEN_FOLDER_EVENT@, "Open Folder"@, "CTRL+K+O"@)
    &&& is_item(items[3], WINDOW_CLOSE_FILE_EVENT@, "Close File"@, "CTRL+F4"@)
    &&& is_item(items[4], WINDOW_CLOSE_FOLDER_EVENT@, "Close Folder"@, "CTRL+F"@)
    &&& is_item(items[5], WINDOW_CLOSE_WINDOW_EVENT@, "Close Window"@, "ALT+F4"@)
    &&& items[6] is Separator
    &&& items[7] is Quit
}

fn custom(id: &str, title: String, accelerator: &str) -> (r: MenuEntry)
    ensures
        is_item(r, id@, title@, accelerator@),
{
    MenuEntry::Custom { id: id.to_owned(), title, accelerator: accelerator.to_owned() }
}

/// Builder of the window command menu.
pub struct Menu {}

impl Menu {
    /// The new window item.
    pub fn new_window(title: String) -> (r: MenuEntry)
        ensures
            is_item(r, WINDOW_NEW_WINDOW_EVENT@, title@, "CTRL+SHIFT+N"@),
    {
        custom(WINDOW_NEW_WINDOW_EVENT, title, "CTRL+SHIFT+N")
    }

    /// The open file item.
    pub fn open_file(title: String) -> (r: MenuEntry)
        ensures
            is_item(r, WINDOW_OPEN_FILE_EVENT@, title@, "CTRL+O"@),
    {
        custom(WINDOW_OPEN_FILE_EVENT, title, "CTRL+O")
    }

    /// The open folder item.
    pub fn open_folder(title: String) -> (r: MenuEntry)
        ensures
            is_item(r, WINDOW_OPEN_FOLDER_EVENT@, title@, "CTRL+K+O"@),
    {
        custom(WINDOW_OPEN_FOLDER_EVENT, title, "CTRL+K+O")
    }

    /// The close window item.
    pub fn close_window(title: String) -> (r: MenuEntry)
        ensures
            is_item(r, WINDOW_CLOSE_WINDOW_EVENT@, title@, "ALT+F4"@),
    {
        custom(WINDOW_CLOSE_WINDOW_EVENT, title, "ALT+F4")
    }

    /// The close folder item.
    pub fn close_folder(title: String) -> (r: MenuEntry)
        ensures
            is_item(r, WINDOW_CLOSE_FOLDER_EVENT@, title@, "CTRL+F"@),
    {
        custom(WINDOW_CLOSE_FOLDER_EVENT, title, "CTRL+F")
    }

    /// The close file item.
    pub fn close_file(title: String) -> (r: MenuEntry)
        ensures
            is_item(r, WINDOW_CLOSE_FILE_EVENT@, title@, "CTRL+F4"@),
    {
        custom(WINDOW_CLOSE_FILE_EVENT, title, "CTRL+F4")
    }

    /// The default entries.
    pub fn menu_items() -> (r: Vec<MenuEntry>)
        ensures
            default_entries(r@),
    {
        let mut v: Vec<MenuEntry> = Vec::new();
        v.push(Menu::new_window("New Window".to_owned()));
        v.push(Menu::open_file("Open File".to_owned()));
        v.push(Menu::open_folder("Open Folder".to_owned()));
        v.push(Menu::close_file("Close File".to_owned()));
        v.push(Menu::close_folder("Close Folder".to_owned()));
        v.push(Menu::close_window("Close Window".to_owned()));
        v.push(MenuEntry::Separator);
        v.push(MenuEntry::Quit);
        v
    }

    /// A menu of the default entries.
    pub fn as_menu() -> (r: Vec<MenuEntry>)
        ensures
            default_entries(r@),
    {
        Menu::menu_items()
    }

    /// A submenu of the default entries under `title`.
    pub fn as_submenu(title: String) -> (r: Submenu)
        ensures
            r.title == title,
            default_entries(r.items@),
    {
        Submenu { title, items: Menu::as_menu() }
    }

    /// A menu with one submenu of the default entries under `title`.
    pub fn new(title: String) -> (r: Vec<Submenu>)
        ensures
            r@.len() == 1,
            r@[0].title == title,
            default_entries(r@[0].items@),
    {
        let mut v: Vec<Submenu> = Vec::new();
        v.push(Menu::as_submenu(title));
        v
    }

    /// A menu with one submenu of the default entries under "File".
    pub fn default() -> (r: Vec<Submenu>)
        ensures
            r@.len() == 1,
            r@[0].title@ == "File"@,
            default_entries(r@[0].items@),
    {
        Menu::new("File".to_owned())
    }
}

} // verus!
