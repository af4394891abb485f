//! Resolution of open requests to windows.
use vstd::prelude::*;

pub mod menu;
pub mod window;

use crate::error::Error;
use crate::text::same_text;
use vstd::string::*;
use crate::windows::window::{
    clone_opt, has_label, labels_unique, EmptyWindowBackupInfo, InnerWindowsBackupCache,
    InnerWindowsRecentsCache, InnerWindowsStateCache, WindowConfiguration, WindowState,
};

verus! {

/// Where an open request comes from.
#[derive(PartialEq, Eq, Structural, Clone, Copy, Debug)]
pub enum OpenContext {
    /// Through the API.
    Api,
    /// From the command line.
    Cli,
    /// From the dock (also when files are opened in a running instance from the desktop).
    Dock,
    /// From the application's main window.
    Menu,
    /// From a file or folder dialog.
    Dialog,
    /// From the operating system's user interface.
    Desktop,
}

impl Default for OpenContext {
    fn default() -> (r: Self)
        ensures
            r == OpenContext::Desktop,
    {
        OpenContext::Desktop
    }
}

/// A resource to open: a folder or a file.
pub struct WindowOpenable {
    pub folder: Option<String>,
    pub file: Option<String>,
}

impl Default for WindowOpenable {
    fn default() -> (r: Self)
        ensures
            r.file is None,
            r.folder is None,
    {
        WindowOpenable { folder: None, file: None }
    }
}

impl WindowOpenable {
    pub fn new(file: Option<String>, folder: Option<String>) -> (r: Self)
        ensures
            r.file == file,
            r.folder == folder,
    {
        WindowOpenable { folder, file }
    }
}

/// Files to open or create.
pub struct FilesToOpen {
    pub files_to_open_or_create: Vec<String>,
}

impl Clone for FilesToOpen {
    fn clone(&self) -> (r: Self)
        ensures
            r.files_to_open_or_create@ == self.files_to_open_or_create@,
    {
        FilesToOpen { files_to_open_or_create: crate::windows::window::clone_strings(&self.files_to_open_or_create) }
    }
}

impl Default for FilesToOpen {
    fn default() -> (r: Self)
        ensures
            r.files_to_open_or_create@.len() == 0,
    {
        FilesToOpen { files_to_open_or_create: Vec::new() }
    }
}

/// Kind of a path to open.
#[derive(PartialEq, Eq, Structural, Clone, Copy, Debug)]
pub enum FileType {
    Directory,
    File,
}

impl Default for FileType {
    fn default() -> (r: Self)
        ensures
            r == FileType::File,
    {
        FileType::File
    }
}

/// A classified path to open, with its backup and owner where known.
pub struct PathToOpen {
    pub folder: Option<String>,
    pub file: Option<String>,
    pub backup_path: Option<String>,
    pub path_type: FileType,
    pub exists: bool,
    pub window: Option<String>,
    pub label: Option<String>,
}

impl PathToOpen {
    /// Nothing set: an empty window to open.
    pub open spec fn is_default(&self) -> bool {
        &&& self.folder is None
        &&& self.file is None
        &&& self.backup_path is None
        &&& self.path_type == FileType::File
        &&& !self.exists
        &&& self.window is None
        &&& self.label is None
    }
}

impl Default for PathToOpen {
    fn default() -> (r: Self)
        ensures
            r.is_default(),
    {
        PathToOpen {
            folder: None,
            file: None,
            backup_path: None,
            path_type: FileType::File,
            exists: false,
            window: None,
            label: None,
        }
    }
}

impl Clone for PathToOpen {
    fn clone(&self) -> (r: Self)
        ensures
            r == *self,
    {
        PathToOpen {
            folder: clone_opt(&self.folder),
            file: clone_opt(&self.file),
            backup_path: clone_opt(&self.backup_path),
            path_type: self.path_type,
            exists: self.exists,
            window: clone_opt(&self.window),
            label: clone_opt(&self.label),
        }
    }
}

/// What the filesystem reports for a path.
#[derive(PartialEq, Eq, Structural, Clone, Copy, Debug)]
pub enum PathKind {
    /// Nothing is there, or its metadata cannot be read.
    Missing,
    /// A regular file.
    File,
    /// A directory.
    Directory,
    /// Anything else.
    Other,
}

/// The record that classifying `path`, of kind `kind`, gives.
pub open spec fn classified(path: String, kind: PathKind) -> PathToOpen {
    match kind {
        PathKind::Directory => PathToOpen {
            folder: Some(path),
            file: None,
            backup_path: None,
            path_type: FileType::Directory,
            exists: true,
            window: None,
            label: None,
        },
        _ => PathToOpen {
            folder: None,
            file: Some(path),
            backup_path: None,
            path_type: FileType::File,
            exists: kind != PathKind::Missing,
            window: None,
            label: None,
        },
    }
}

/// Classifies a path by what the filesystem reports for it: a missing path
/// is a file to create, a directory is a folder, anything else is an
/// existing file.
pub fn resolve_file_path(path: &String, kind: PathKind) -> (r: Option<PathToOpen>)
    ensures
        r == Some(classified(*path, kind)),
{
    let p = path.clone();
    match kind {
        PathKind::Directory => Some(
            PathToOpen {
                folder: Some(p),
                file: None,
                backup_path: None,
                path_type: FileType::Directory,
                exists: true,
                window: None,
                label: None,
            },
        ),
        _ => Some(
            PathToOpen {
                folder: None,
                file: Some(p),
                backup_path: None,
                path_type: FileType::File,
                exists: kind != PathKind::Missing,
                window: None,
                label: None,
            },
        ),
    }
}

/// The path to classify for a resource: its folder, or else its file.
pub open spec fn openable_path(o: WindowOpenable) -> Option<String> {
    if o.folder is Some {
        o.folder
    } else {
        o.file
    }
}

/// Classifies a resource to open by the kind of its path (its folder, or
/// else its file); a resource with neither gives nothing.
pub fn resolve_openable(openable: &WindowOpenable, kind: PathKind) -> (r: Option<PathToOpen>)
    ensures
        match openable_path(*openable) {
            Some(p) => r == Some(classified(p, kind)),
            None => r is None,
        },
{
    match &openable.folder {
        Some(folder) => resolve_file_path(folder, kind),
        None => match &openable.file {
            Some(file) => resolve_file_path(file, kind),
            None => None,
        },
    }
}

/// The records that classifying each resource with its kind gives, in order.
pub open spec fn extracted(uris: Seq<WindowOpenable>, kinds: Seq<PathKind>) -> Seq<PathToOpen>
    decreases uris.len(),
{
    if uris.len() == 0 {
        Seq::empty()
    } else {
        let rest = extracted(uris.drop_last(), kinds.subrange(0, uris.len() - 1));
        match openable_path(uris.last()) {
            Some(p) => rest.push(classified(p, kinds[uris.len() - 1])),
            None => rest,
        }
    }
}

/// Classifies each resource of the request; `kinds[i]` is what the
/// filesystem reports for the path of `uris[i]`.
pub fn extract_paths(uris_to_open: &Option<Vec<WindowOpenable>>, kinds: &Vec<PathKind>) -> (r: Vec<PathToOpen>)
    requires
        uris_to_open is Some ==> kinds@.len() == uris_to_open->0@.len(),
    ensures
        match uris_to_open {
            Some(uris) => r@ == extracted(uris@, kinds@),
            None => r@.len() == 0,
        },
{
    let mut paths_to_open: Vec<PathToOpen> = Vec::new();
    match uris_to_open {
        Some(uris) => {
            let mut i: usize = 0;
            while i < uris.len()
                invariant
                    i <= uris@.len(),
                    kinds@.len() == uris@.len(),
                    paths_to_open@ == extracted(uris@.subrange(0, i as int), kinds@.subrange(0, i as int)),
                decreases uris@.len() - i,
            {
                let ghost pre = uris@.subrange(0, i as int + 1);
                assert(pre.drop_last() =~= uris@.subrange(0, i as int));
                assert(kinds@.subrange(0, i as int + 1).subrange(0, i as int) =~= kinds@.subrange(0, i as int));
                if let Some(path) = resolve_openable(&uris[i], kinds[i]) {
                    paths_to_open.push(path);
                }
                i = i + 1;
            }
            assert(uris@.subrange(0, uris@.len() as int) =~= uris@);
            assert(kinds@.subrange(0, uris@.len() as int) =~= kinds@);
        },
        None => {},
    }
    paths_to_open
}

/// Window settings for whether resources open in a new window.
#[derive(PartialEq, Eq, Structural, Clone, Copy, Debug)]
pub enum OpenInNewWindow {
    On,
    Off,
    Default,
}

impl Default for OpenInNewWindow {
    fn default() -> (r: Self)
        ensures
            r == OpenInNewWindow::Default,
    {
        OpenInNewWindow::Default
    }
}

/// Which windows of the last session to restore.
#[derive(PartialEq, Eq, Structural, Clone, Copy, Debug)]
pub enum RestoreWindows {
    Preserve,
    All,
    Folders,
    One,
    /// Restore no window.
    Nothing,
}

impl Default for RestoreWindows {
    fn default() -> (r: Self)
        ensures
            r == RestoreWindows::All,
    {
        RestoreWindows::All
    }
}

/// Dimensions of new windows.
#[derive(PartialEq, Eq, Structural, Clone, Copy, Debug)]
pub enum NewWindowDimensions {
    /// The system's default size.
    Default,
    /// The size of the calling window.
    Inherit,
    /// A relative offset from the calling window.
    Offset,
    /// Maximized.
    Maximized,
    /// Fullscreen.
    Fullscreen,
}

impl Default for NewWindowDimensions {
    fn default() -> (r: Self)
        ensures
            r == NewWindowDimensions::Default,
    {
        NewWindowDimensions::Default
    }
}

/// Window settings.
pub struct InnerWindowsSettings {
    pub open_files_in_new_window: OpenInNewWindow,
    pub open_folders_in_new_window: OpenInNewWindow,
    pub open_without_arguments_in_new_window: OpenInNewWindow,
    pub restore_windows: RestoreWindows,
    pub restore_fullscreen: bool,
    pub new_window_dimensions: NewWindowDimensions,
    pub native_tabs: bool,
    pub native_full_screen: bool,
    pub close_when_empty: bool,
    pub click_through_inactive: bool,
}

impl InnerWindowsSettings {
    /// The settings when nothing was configured.
    pub open spec fn is_default(&self) -> bool {
        &&& self.open_files_in_new_window == OpenInNewWindow::Default
        &&& self.open_folders_in_new_window == OpenInNewWindow::Default
        &&& self.open_without_arguments_in_new_window == OpenInNewWindow::Default
        &&& self.restore_windows == RestoreWindows::All
        &&& !self.restore_fullscreen
        &&& self.new_window_dimensions == NewWindowDimensions::Default
        &&& !self.native_tabs
        &&& !self.native_full_screen
        &&& !self.close_when_empty
        &&& !self.click_through_inactive
    }
}

impl Default for InnerWindowsSettings {
    fn default() -> (r: Self)
        ensures
            r.is_default(),
    {
        InnerWindowsSettings {
            open_files_in_new_window: OpenInNewWindow::Default,
            open_folders_in_new_window: OpenInNewWindow::Default,
            open_without_arguments_in_new_window: OpenInNewWindow::Default,
            restore_windows: RestoreWindows::All,
            restore_fullscreen: false,
            new_window_dimensions: NewWindowDimensions::Default,
            native_tabs: false,
            native_full_screen: false,
            close_when_empty: false,
            click_through_inactive: false,
        }
    }
}

/// Window settings that the application reads.
pub struct WindowsSettings(pub InnerWindowsSettings);

impl Default for WindowsSettings {
    fn default() -> (r: Self)
        ensures
            r.0.is_default(),
    {
        WindowsSettings(InnerWindowsSettings::default())
    }
}

/// An open request.
pub struct OpenConfiguration {
    pub label: Option<String>,
    pub url: Option<String>,
    pub uris_to_open: Option<Vec<WindowOpenable>>,
    pub context_window_label: Option<String>,
    pub context: OpenContext,
    pub force_new_window: bool,
    pub force_new_tabbed_window: bool,
    pub force_reuse_window: bool,
    pub force_empty_window: bool,
    pub prefer_new_window: bool,
    pub initial_startup: bool,
    pub diff_mode: bool,
}

impl Default for OpenConfiguration {
    fn default() -> (r: Self)
        ensures
            r.label is None,
            r.url is None,
            r.uris_to_open is None,
            r.context_window_label is None,
            r.context == OpenContext::Desktop,
            !r.force_new_window,
            !r.force_new_tabbed_window,
            !r.force_reuse_window,
            !r.force_empty_window,
            !r.prefer_new_window,
            !r.initial_startup,
            !r.diff_mode,
    {
        OpenConfiguration {
            label: None,
            url: None,
            uris_to_open: None,
            context_window_label: None,
            context: OpenContext::Desktop,
            force_new_window: false,
            force_new_tabbed_window: false,
            force_reuse_window: false,
            force_empty_window: false,
            prefer_new_window: false,
            initial_startup: false,
            diff_mode: false,
        }
    }
}

/// Whether folders and files of a request open in a new window.
#[derive(PartialEq, Eq, Structural, Clone, Copy, Debug)]
pub struct OpenOptions {
    pub open_folder_in_new_window: bool,
    pub open_files_in_new_window: bool,
}

/// Whether folders open in a new window: forced or preferred unless reuse is
/// forced, and otherwise an explicit setting decides.
pub open spec fn folder_in_new_window(settings: InnerWindowsSettings, c: OpenConfiguration) -> bool {
    if !c.force_new_window && !c.force_reuse_window && settings.open_folders_in_new_window
        != OpenInNewWindow::Default {
        settings.open_folders_in_new_window == OpenInNewWindow::On
    } else {
        (c.prefer_new_window || c.force_new_window) && !c.force_reuse_window
    }
}

/// Whether files open in a new window: a force flag decides; otherwise an
/// explicit setting, and otherwise yes unless the request comes from a
/// dialog or the menu.
pub open spec fn files_in_new_window(settings: InnerWindowsSettings, c: OpenConfiguration) -> bool {
    if c.force_new_window || c.force_reuse_window {
        c.force_new_window && !c.force_reuse_window
    } else if settings.open_files_in_new_window != OpenInNewWindow::Default {
        settings.open_files_in_new_window == OpenInNewWindow::On
    } else {
        c.context != OpenContext::Dialog && c.context != OpenContext::Menu
    }
}

/// Decides whether the folders and the files of a request open in a new window.
pub fn should_open_new_window(settings: &InnerWindowsSettings, configuration: &OpenConfiguration) -> (r: OpenOptions)
    ensures
        r.open_folder_in_new_window == folder_in_new_window(*settings, *configuration),
        r.open_files_in_new_window == files_in_new_window(*settings, *configuration),
{
    let mut open_folder_in_new_window = (configuration.prefer_new_window || configuration.force_new_window)
        && !configuration.force_reuse_window;
    let mut open_files_in_new_window = false;

    if !configuration.force_new_window && !configuration.force_reuse_window && (
    settings.open_folders_in_new_window == OpenInNewWindow::On || settings.open_folders_in_new_window
        == OpenInNewWindow::Off) {
        open_folder_in_new_window = settings.open_folders_in_new_window == OpenInNewWindow::On;
    }
    if configuration.force_new_window || configuration.force_reuse_window {
        open_files_in_new_window = configuration.force_new_window && !configuration.force_reuse_window;
    } else {
        if configuration.context != OpenContext::Dialog && configuration.context != OpenContext::Menu {
            open_files_in_new_window = true;
        }
        if settings.open_files_in_new_window == OpenInNewWindow::On || settings.open_files_in_new_window
            == OpenInNewWindow::Off {
            open_files_in_new_window = settings.open_files_in_new_window == OpenInNewWindow::On;
        }
    }
    OpenOptions { open_folder_in_new_window, open_files_in_new_window }
}

/// With default settings and no force or prefer flag, files of a request
/// from a dialog open in the current window, and files of a request from
/// the desktop open in a new one.
pub proof fn lemma_default_files_policy(settings: InnerWindowsSettings, c: OpenConfiguration)
    requires
        settings.is_default(),
        !c.force_new_window,
        !c.force_reuse_window,
        !c.prefer_new_window,
    ensures
        c.context == OpenContext::Dialog ==> !files_in_new_window(settings, c),
        c.context == OpenContext::Desktop ==> files_in_new_window(settings, c),
{
}

/// Whether `path` starts with the whole components of `base`, as the
/// standard library's `Path::starts_with` decides.
pub uninterp spec fn path_starts_with(path: Seq<char>, base: Seq<char>) -> bool;

/// Relies on `Path::starts_with`: whether `base` is a leading run of whole
/// components of `path`.
#[verifier::external_body]
fn path_has_prefix(path: &str, base: &str) -> (r: bool)
    ensures
        r == path_starts_with(path@, base@),
{
    std::path::Path::new(path).starts_with(base)
}

/// The window's folder is `folder`.
pub open spec fn shows_folder(st: WindowState, folder: Seq<char>) -> bool {
    st.folder is Some && st.folder->0@ == folder
}

/// The window's folder is `file` or one of its ancestors.
pub open spec fn hosts_file(st: WindowState, file: Seq<char>) -> bool {
    st.folder is Some && (file == st.folder->0@ || path_starts_with(file, st.folder->0@))
}

/// Finds the first window whose folder is `folder`.
pub fn find_window_on_folder(cache: &InnerWindowsStateCache, folder: Option<&String>) -> (r: Option<String>)
    ensures
        folder is None ==> r is None,
        folder is Some ==> (r is Some <==> exists|i: int|
            0 <= i < cache.windows().len() && shows_folder(#[trigger] cache.windows()[i].1, folder->0@)),
        r is Some ==> exists|i: int|
            0 <= i < cache.windows().len() && cache.windows()[i].0 == r->0 && shows_folder(
                cache.windows()[i].1,
                folder->0@,
            ) && forall|j: int| 0 <= j < i ==> !shows_folder(#[trigger] cache.windows()[j].1, folder->0@),
{
    match folder {
        Some(f) => {
            let mut i: usize = 0;
            while i < cache.storage.opened_windows.len()
                invariant
                    folder is Some && folder->0@ == f@,
                    i <= cache.windows().len(),
                    forall|j: int| 0 <= j < i ==> !shows_folder(#[trigger] cache.windows()[j].1, f@),
                decreases cache.windows().len() - i,
            {
                let entry = &cache.storage.opened_windows[i];
                match &entry.1.folder {
                    Some(uri) => {
                        if same_text(f.as_str(), uri.as_str()) {
                            assert(shows_folder(cache.windows()[i as int].1, f@));
                            return Some(entry.0.clone());
                        }
                    },
                    None => {},
                }
                i = i + 1;
            }
            None
        },
        None => None,
    }
}

/// Finds the first window whose folder is the file or one of its ancestors.
pub fn find_window_on_file(cache: &InnerWindowsStateCache, file: &String) -> (r: Option<String>)
    ensures
        r is Some <==> exists|i: int|
            0 <= i < cache.windows().len() && hosts_file(#[trigger] cache.windows()[i].1, file@),
        r is Some ==> exists|i: int|
            0 <= i < cache.windows().len() && cache.windows()[i].0 == r->0 && hosts_file(
                cache.windows()[i].1,
                file@,
            ) && forall|j: int| 0 <= j < i ==> !hosts_file(#[trigger] cache.windows()[j].1, file@),
{
    let mut i: usize = 0;
    while i < cache.storage.opened_windows.len()
        invariant
            i <= cache.windows().len(),
            forall|j: int| 0 <= j < i ==> !hosts_file(#[trigger] cache.windows()[j].1, file@),
        decreases cache.windows().len() - i,
    {
        let entry = &cache.storage.opened_windows[i];
        match &entry.1.folder {
            Some(parent) => {
                if same_text(file.as_str(), parent.as_str()) || path_has_prefix(file.as_str(), parent.as_str()) {
                    assert(hosts_file(cache.windows()[i as int].1, file@));
                    return Some(entry.0.clone());
                }
            },
            None => {},
        }
        i = i + 1;
    }
    None
}

/// Position `i` holds the window focused last: no window was focused later,
/// and every window before it was focused earlier.
pub open spec fn is_last_active(s: Seq<(String, WindowState)>, i: int) -> bool {
    &&& 0 <= i < s.len()
    &&& forall|j: int| 0 <= j < s.len() ==> #[trigger] s[j].1.last_focus_time <= s[i].1.last_focus_time
    &&& forall|j: int| 0 <= j < i ==> #[trigger] s[j].1.last_focus_time < s[i].1.last_focus_time
}

/// The label of the window focused last, if any window is known.
pub open spec fn last_active_label(s: Seq<(String, WindowState)>) -> Option<String> {
    if exists|i: int| is_last_active(s, i) {
        Some(s[choose|i: int| is_last_active(s, i)].0)
    } else {
        None
    }
}

/// At most one position holds the window focused last.
pub proof fn lemma_last_active_unique(s: Seq<(String, WindowState)>, i: int, j: int)
    requires
        is_last_active(s, i),
        is_last_active(s, j),
    ensures
        i == j,
{
    if i < j {
        assert(s[i].1.last_focus_time < s[j].1.last_focus_time);
        assert(s[i].1.last_focus_time >= s[j].1.last_focus_time);
    } else if j < i {
        assert(s[j].1.last_focus_time < s[i].1.last_focus_time);
        assert(s[j].1.last_focus_time >= s[i].1.last_focus_time);
    }
}

/// The window focused last: the first of those with the latest focus time.
pub fn last_active_window(cache: &InnerWindowsStateCache) -> (r: Option<String>)
    ensures
        r == last_active_label(cache.windows()),
        r is None <==> cache.windows().len() == 0,
{
    let n = cache.storage.opened_windows.len();
    if n == 0 {
        return None;
    }
    let mut best: usize = 0;
    let mut i: usize = 1;
    while i < n
        invariant
            n == cache.windows().len(),
            1 <= i <= n,
            best < i,
            forall|j: int| 0 <= j < i ==> #[trigger] cache.windows()[j].1.last_focus_time
                <= cache.windows()[best as int].1.last_focus_time,
            forall|j: int| 0 <= j < best ==> #[trigger] cache.windows()[j].1.last_focus_time
                < cache.windows()[best as int].1.last_focus_time,
        decreases n - i,
    {
        if cache.storage.opened_windows[i].1.last_focus_time > cache.storage.opened_windows[best].1.last_focus_time {
            best = i;
        }
        i = i + 1;
    }
    proof {
        let s = cache.windows();
        assert(is_last_active(s, best as int));
        let c = choose|k: int| is_last_active(s, k);
        lemma_last_active_unique(s, c, best as int);
    }
    Some(cache.storage.opened_windows[best].0.clone())
}

/// Whether the window with this label shows a single folder; an unknown
/// label is an error.
pub fn is_single_folder(cache: &InnerWindowsStateCache, label: &str) -> (r: Result<bool, Error>)
    requires
        cache.wf(),
    ensures
        r is Ok <==> cache.state_map().contains_key(label@),
        r is Ok ==> r->Ok_0 == (cache.state_map()[label@].folder is Some),
        r is Err ==> r->Err_0.is_not_found_for(label@),
{
    match cache.get_item(label) {
        Some(window_state) => Ok(window_state.folder.is_some()),
        None => Err(Error::WindowStateWithLabelNotFound(label.to_owned())),
    }
}

/// A window's colour theme.
#[derive(PartialEq, Eq, Structural, Clone, Copy, Debug)]
pub enum WindowTheme {
    Light,
    Dark,
}

/// Options for one window to open.
pub struct WindowOptions {
    /// The theme to force; the system's when absent.
    pub theme: Option<WindowTheme>,
    pub label: Option<String>,
    pub url: Option<String>,
    pub always_on_top: Option<bool>,
    pub center: bool,
    pub decorations: Option<bool>,
    pub focus: bool,
    pub fullscreen: Option<bool>,
    pub maximized: Option<bool>,
    pub resizable: Option<bool>,
    pub skip_taskbar: Option<bool>,
    pub title: Option<String>,
    pub transparent: Option<bool>,
    pub visible: Option<bool>,
    pub initial_startup: bool,
    pub force_new_window: bool,
    pub force_new_tabbed_window: bool,
    pub force_reuse_window: bool,
    pub force_empty_window: bool,
    pub empty_window_backup_info: Option<EmptyWindowBackupInfo>,
    pub files_to_open: FilesToOpen,
    pub window_to_use: Option<String>,
    pub folder: Option<String>,
}

impl Default for WindowOptions {
    fn default() -> (r: Self)
        ensures
            r.label is None && r.url is None && r.window_to_use is None && r.folder is None,
            r.empty_window_backup_info is None,
            r.files_to_open.files_to_open_or_create@.len() == 0,
            !r.initial_startup && !r.force_new_window && !r.force_new_tabbed_window,
            !r.force_reuse_window && !r.force_empty_window,
    {
        WindowOptions {
            theme: None,
            label: None,
            url: None,
            always_on_top: None,
            center: false,
            decorations: None,
            focus: false,
            fullscreen: None,
            maximized: None,
            resizable: None,
            skip_taskbar: None,
            title: None,
            transparent: None,
            visible: None,
            initial_startup: false,
            force_new_window: false,
            force_new_tabbed_window: false,
            force_reuse_window: false,
            force_empty_window: false,
            empty_window_backup_info: None,
            files_to_open: FilesToOpen::default(),
            window_to_use: None,
            folder: None,
        }
    }
}

/// Payload of the add folders event.
pub struct AddFolderPayload {
    pub folders_to_add: Vec<PathToOpen>,
}

/// Payload of the open files event.
pub struct OpenFilePayload {
    pub files_to_open_or_create: Vec<String>,
}

/// A window for the host to create.
pub struct NewWindow {
    pub label: String,
    /// The theme to force; the system's when absent.
    pub theme: Option<WindowTheme>,
    pub url: String,
    pub title: String,
    pub always_on_top: bool,
    pub decorations: bool,
    pub fullscreen: bool,
    pub maximized: bool,
    pub resizable: bool,
    pub skip_taskbar: bool,
    pub transparent: bool,
    pub visible: bool,
    pub configuration: WindowConfiguration,
}

/// What the windowing host has to do, in order, to carry out a request.
pub enum WindowAction {
    /// Bring this existing window to the front.
    Focus(String),
    /// Focus this window, then deliver the open files event to it.
    OpenFiles(String, OpenFilePayload),
    /// Focus this window, then deliver the add folders event to it.
    AddFolders(String, AddFolderPayload),
    /// Create this window.
    Create(NewWindow),
}

/// The first number from `n` on whose label no window of `m` has, or the
/// largest number when there is none.
pub open spec fn first_free_label(m: Map<Seq<char>, WindowState>, n: u64) -> u64
    decreases u64::MAX - n,
{
    if n == u64::MAX || !m.contains_key(window_label(n)) {
        n
    } else {
        first_free_label(m, (n + 1) as u64)
    }
}

/// The number found is at least `n`, and no window has its label unless it
/// is the largest number.
pub proof fn lemma_first_free_label(m: Map<Seq<char>, WindowState>, n: u64)
    ensures
        first_free_label(m, n) >= n,
        first_free_label(m, n) < u64::MAX ==> !m.contains_key(window_label(first_free_label(m, n))),
    decreases u64::MAX - n,
{
    if n < u64::MAX && m.contains_key(window_label(n)) {
        lemma_first_free_label(m, (n + 1) as u64);
    }
}

/// The label `windows_` and the number in decimal.
fn label_for(id: u64) -> (r: String)
    ensures
        r@ == window_label(id),
{
    let mut label = "windows_".to_owned();
    proof {
        reveal_strlit("windows_");
    }
    let digits = crate::text::decimal_string(id);
    label.append(digits.as_str());
    label
}

/// The label given to the `n`th window created here.
pub open spec fn window_label(n: u64) -> Seq<char> {
    seq!['w', 'i', 'n', 'd', 'o', 'w', 's', '_'] + crate::text::decimal(n as nat)
}

/// The empty workspace that a window opened with these options takes over.
pub open spec fn backup_candidate(o: WindowOptions) -> Option<String> {
    match o.empty_window_backup_info {
        Some(info) => info.backup_folder,
        None => None,
    }
}

/// The existing window that a window opened with these options reuses.
pub open spec fn reused_window(states: Seq<(String, WindowState)>, o: WindowOptions) -> Option<String> {
    if o.force_new_window || o.force_new_tabbed_window {
        None
    } else {
        match o.window_to_use {
            Some(l) => if has_label(states, l@) {
                Some(l)
            } else {
                None
            },
            None => last_active_label(states),
        }
    }
}

/// A label found at some position is known to the window map.
proof fn lemma_label_index_known(s: Seq<(String, WindowState)>, i: int)
    requires
        0 <= i < s.len(),
    ensures
        has_label(s, s[i].0@),
{
    assert(s[i].0@ == s[i].0@);
}

/// Copies a list of paths to open, keeping its contents.
fn clone_paths(v: &Vec<PathToOpen>) -> (r: Vec<PathToOpen>)
    ensures
        r@ == v@,
{
    let mut r: Vec<PathToOpen> = Vec::new();
    let mut i: usize = 0;
    while i < v.len()
        invariant
            i <= v@.len(),
            r@ == v@.subrange(0, i as int),
        decreases v@.len() - i,
    {
        r.push(v[i].clone());
        i = i + 1;
    }
    assert(r@ =~= v@);
    r
}

/// Empties the list of files to open.
pub fn empty_files_to_open(files_to_open: &mut FilesToOpen) -> (r: Result<(), Error>)
    ensures
        r is Ok,
        final(files_to_open).files_to_open_or_create@.len() == 0,
{
    files_to_open.files_to_open_or_create = Vec::new();
    Ok(())
}

/// Whether no file is left to open.
pub fn is_empty_files_to_open(files_to_open: &FilesToOpen) -> (r: bool)
    ensures
        r == (files_to_open.files_to_open_or_create@.len() == 0),
{
    files_to_open.files_to_open_or_create.len() == 0
}

/// After a window took over `folder` (or, without one, an empty workspace),
/// the backups record that the window owns it.
pub open spec fn backup_registered(
    old_b: &InnerWindowsBackupCache,
    new_b: &InnerWindowsBackupCache,
    folder: Option<String>,
    candidate: Option<String>,
    window: Seq<char>,
) -> bool {
    &&& new_b.backup_path == old_b.backup_path
    &&& new_b.last_saved_backup_contents == old_b.last_saved_backup_contents
    &&& match folder {
        Some(f) => {
            &&& new_b.folders_view() == crate::windows::window::with_backup(old_b.folders_view(), f@, window)
            &&& new_b.empty_view() == old_b.empty_view()
            &&& new_b.next_id() == old_b.next_id()
        },
        None => {
            let id = match candidate {
                Some(c) => c@,
                None => crate::text::decimal(old_b.minted_id() as nat),
            };
            &&& new_b.empty_view() == crate::windows::window::with_backup(old_b.empty_view(), id, window)
            &&& new_b.folders_view() == old_b.folders_view()
        },
    }
}

/// An empty window to open.
pub open spec fn empty_path() -> PathToOpen {
    PathToOpen {
        folder: None,
        file: None,
        backup_path: None,
        path_type: FileType::File,
        exists: false,
        window: None,
        label: None,
    }
}

/// What reopening a window of the last session gives.
pub open spec fn restored_entry(st: WindowState, restore: RestoreWindows) -> Seq<PathToOpen> {
    if st.folder is Some {
        seq![PathToOpen { folder: st.folder, path_type: FileType::Directory, exists: true, ..empty_path() }]
    } else if restore != RestoreWindows::Folders {
        seq![PathToOpen { backup_path: st.backup_path, ..empty_path() }]
    } else {
        Seq::empty()
    }
}

/// What reopening each of the windows gives, in order.
pub open spec fn restored_entries(s: Seq<(String, WindowState)>, restore: RestoreWindows) -> Seq<PathToOpen>
    decreases s.len(),
{
    if s.len() == 0 {
        Seq::empty()
    } else {
        restored_entries(s.drop_last(), restore) + restored_entry(s.last().1, restore)
    }
}

/// The paths to reopen from the last session.
pub open spec fn last_session_paths(settings: InnerWindowsSettings, states: InnerWindowsStateCache) -> Seq<PathToOpen> {
    let restore = settings.restore_windows;
    if restore == RestoreWindows::Nothing {
        Seq::empty()
    } else {
        let all = if restore != RestoreWindows::One {
            restored_entries(states.windows(), restore)
        } else {
            Seq::empty()
        };
        let last = match states.storage.last_active_window {
            Some(l) => if states.state_map().contains_key(l.label@) {
                restored_entry(states.state_map()[l.label@], restore)
            } else {
                Seq::empty()
            },
            None => Seq::empty(),
        };
        all + last
    }
}

/// The paths that have a backup, in order.
pub open spec fn backed_up(s: Seq<PathToOpen>) -> Seq<PathToOpen>
    decreases s.len(),
{
    if s.len() == 0 {
        Seq::empty()
    } else if s.last().backup_path is Some {
        backed_up(s.drop_last()).push(s.last())
    } else {
        backed_up(s.drop_last())
    }
}

/// The paths that a request opens.
pub open spec fn paths_to_open(
    settings: InnerWindowsSettings,
    states: InnerWindowsStateCache,
    uris: Option<Vec<WindowOpenable>>,
    kinds: Seq<PathKind>,
    force_empty_window: bool,
    initial_startup: bool,
) -> Seq<PathToOpen> {
    let base = if force_empty_window {
        seq![empty_path()]
    } else {
        match uris {
            Some(u) => if u@.len() > 0 {
                extracted(u@, kinds)
            } else {
                Seq::empty()
            },
            None => if last_session_paths(settings, states).len() == 0 {
                seq![empty_path()]
            } else {
                last_session_paths(settings, states)
            },
        }
    };
    let restored = !force_empty_window && uris is None;
    if initial_startup && !restored {
        let at = if base.len() == 0 { 0 } else { 1int };
        base.subrange(0, at) + backed_up(last_session_paths(settings, states)) + base.subrange(at, base.len() as int)
    } else {
        base
    }
}

/// Appends what reopening a window of the last session gives.
fn push_restored(paths: &mut Vec<PathToOpen>, st: &WindowState, restore: RestoreWindows)
    ensures
        final(paths)@ == old(paths)@ + restored_entry(*st, restore),
{
    let ghost before = paths@;
    if st.folder.is_some() {
        let mut p = PathToOpen::default();
        p.folder = clone_opt(&st.folder);
        p.path_type = FileType::Directory;
        p.exists = true;
        paths.push(p);
        assert(paths@ =~= before + restored_entry(*st, restore));
    } else if restore != RestoreWindows::Folders {
        let mut p = PathToOpen::default();
        p.backup_path = clone_opt(&st.backup_path);
        paths.push(p);
        assert(paths@ =~= before + restored_entry(*st, restore));
    } else {
        assert(paths@ =~= before + restored_entry(*st, restore));
    }
}

/// From `before` to `after`, exactly one action was planned: creating the
/// window `label`, with no folder and no file.
pub open spec fn creates_one_empty_window(before: Seq<WindowAction>, after: Seq<WindowAction>, label: Seq<char>) -> bool {
    &&& after.len() == before.len() + 1
    &&& after.drop_last() == before
    &&& match after.last() {
        WindowAction::Create(w) => w.label@ == label && w.configuration.folder is None
            && w.configuration.files_to_open_or_create@.len() == 0,
        _ => false,
    }
}

/// From `before` to `after`, exactly one action was planned: creating the
/// window `label` for `folder`.
pub open spec fn creates_one_folder_window(
    before: Seq<WindowAction>,
    after: Seq<WindowAction>,
    label: Seq<char>,
    folder: Seq<char>,
) -> bool {
    &&& after.len() == before.len() + 1
    &&& after.drop_last() == before
    &&& match after.last() {
        WindowAction::Create(w) => w.label@ == label && w.configuration.folder is Some
            && w.configuration.folder->0@ == folder,
        _ => false,
    }
}

/// The request opens one existing or new file, not at startup and without
/// forcing an empty window, and a known window hosts it while files stay
/// out of new windows.
pub open spec fn opens_one_hosted_file(
    states: InnerWindowsStateCache,
    settings: InnerWindowsSettings,
    c: OpenConfiguration,
    kinds: Seq<PathKind>,
) -> bool {
    &&& !c.force_empty_window
    &&& !c.initial_startup
    &&& c.uris_to_open is Some
    &&& c.uris_to_open->0@.len() == 1
    &&& c.uris_to_open->0@[0].folder is None
    &&& c.uris_to_open->0@[0].file is Some
    &&& kinds.len() == 1
    &&& kinds[0] != PathKind::Directory
    &&& routes_to_host(states, settings, c, c.uris_to_open->0@[0].file->0@)
}

/// The request opens one folder, not at startup and without forcing an
/// empty window, while no window is known.
pub open spec fn opens_one_new_folder(states: InnerWindowsStateCache, c: OpenConfiguration, kinds: Seq<PathKind>) -> bool {
    &&& states.windows().len() == 0
    &&& !c.force_empty_window
    &&& !c.initial_startup
    &&& c.uris_to_open is Some
    &&& c.uris_to_open->0@.len() == 1
    &&& c.uris_to_open->0@[0].folder is Some
    &&& kinds == seq![PathKind::Directory]
}

/// The request's files stay out of new windows, it comes from the
/// desktop, the command line or the dock, and a known window hosts `file`.
pub open spec fn routes_to_host(
    states: InnerWindowsStateCache,
    settings: InnerWindowsSettings,
    c: OpenConfiguration,
    file: Seq<char>,
) -> bool {
    &&& !files_in_new_window(settings, c)
    &&& (c.context == OpenContext::Desktop || c.context == OpenContext::Cli || c.context == OpenContext::Dock)
    &&& exists|k: int| 0 <= k < states.windows().len() && hosts_file(#[trigger] states.windows()[k].1, file)
}

/// Some window shows `folder`, and its folder hosts `file`.
pub open spec fn hosted_by_folder(s: Seq<(String, WindowState)>, folder: Seq<char>, file: Seq<char>) -> bool {
    exists|k: int| 0 <= k < s.len() && shows_folder(#[trigger] s[k].1, folder) && hosts_file(s[k].1, file)
}

/// From `before` to `after`, exactly one action was planned: delivering
/// the open files event for `file` alone to the window `label`.
pub open spec fn sends_file_to(before: Seq<WindowAction>, after: Seq<WindowAction>, label: Seq<char>, file: Seq<char>) -> bool {
    &&& after.len() == before.len() + 1
    &&& after.drop_last() == before
    &&& match after.last() {
        WindowAction::OpenFiles(w, p) => w@ == label && p.files_to_open_or_create@.len() == 1
            && p.files_to_open_or_create@[0]@ == file,
        _ => false,
    }
}

/// No window shows the folder (nothing to look for without one).
pub open spec fn no_window_shows(s: Seq<(String, WindowState)>, folder: Option<String>) -> bool {
    folder is Some ==> forall|k: int| 0 <= k < s.len() ==> !shows_folder(#[trigger] s[k].1, folder->0@)
}

/// A manager grows from itself.
proof fn lemma_grows_refl(a: &WindowsAPI)
    ensures
        a.grows_from(a),
{
    assert(a.actions@.subrange(0, a.actions@.len() as int) =~= a.actions@);
}

/// Growing is transitive.
proof fn lemma_grows_trans(a: &WindowsAPI, b: &WindowsAPI, c: &WindowsAPI)
    requires
        b.grows_from(a),
        c.grows_from(b),
    ensures
        c.grows_from(a),
{
    assert(c.actions@.subrange(0, a.actions@.len() as int) =~= b.actions@.subrange(0, a.actions@.len() as int));
}

/// Planning one more action on unchanged caches is growing.
proof fn lemma_grows_push(a: &WindowsAPI, b: &WindowsAPI)
    requires
        b.actions@.len() == a.actions@.len() + 1,
        b.actions@.drop_last() == a.actions@,
        b.states == a.states,
        b.backups == a.backups,
        b.recents == a.recents,
        b.settings == a.settings,
    ensures
        b.grows_from(a),
{
    assert(b.actions@.subrange(0, a.actions@.len() as int) =~= b.actions@.drop_last());
}

/// Some entry of `list` restores the workspace `id`.
pub open spec fn restores(list: Seq<EmptyWindowBackupInfo>, id: Seq<char>) -> bool {
    exists|k: int| 0 <= k < list.len() && #[trigger] crate::windows::window::opt_view(list[k].backup_folder) == Some(id)
}

/// Appends the backups of `more` whose workspace `list` does not restore
/// yet, in order; every workspace of `more` is then restored by `list`.
pub fn append_new_backups(list: &mut Vec<EmptyWindowBackupInfo>, more: &Vec<EmptyWindowBackupInfo>)
    ensures
        final(list)@.len() >= old(list)@.len(),
        final(list)@.subrange(0, old(list)@.len() as int) == old(list)@,
        forall|k: int| old(list)@.len() <= k < final(list)@.len() ==> more@.contains(#[trigger] final(list)@[k]),
        forall|k: int, m: int| 0 <= m < k < final(list)@.len() && old(list)@.len() <= k
            && #[trigger] final(list)@[k].backup_folder is Some ==> crate::windows::window::opt_view(
            #[trigger] final(list)@[m].backup_folder,
        ) != crate::windows::window::opt_view(final(list)@[k].backup_folder),
        forall|j: int| 0 <= j < more@.len() && (#[trigger] more@[j]).backup_folder is Some ==> restores(
            final(list)@,
            more@[j].backup_folder->0@,
        ),
{
    let ghost start = list@;
    let mut i: usize = 0;
    while i < more.len()
        invariant
            i <= more@.len(),
            list@.len() >= start.len(),
            list@.subrange(0, start.len() as int) == start,
            forall|k: int| start.len() <= k < list@.len() ==> more@.contains(#[trigger] list@[k]),
            forall|k: int, m: int| 0 <= m < k < list@.len() && start.len() <= k
                && #[trigger] list@[k].backup_folder is Some ==> crate::windows::window::opt_view(
                #[trigger] list@[m].backup_folder,
            ) != crate::windows::window::opt_view(list@[k].backup_folder),
            forall|j: int| 0 <= j < i && (#[trigger] more@[j]).backup_folder is Some ==> restores(
                list@,
                more@[j].backup_folder->0@,
            ),
        decreases more@.len() - i,
    {
        let mut present = false;
        match &more[i].backup_folder {
            Some(id) => {
                let mut k: usize = 0;
                while k < list.len()
                    invariant
                        k <= list@.len(),
                        more@[i as int].backup_folder is Some && more@[i as int].backup_folder->0 == *id,
                        present ==> restores(list@, id@),
                        !present ==> forall|m: int| 0 <= m < k ==> crate::windows::window::opt_view(
                            #[trigger] list@[m].backup_folder,
                        ) != Some(id@),
                    decreases list@.len() - k,
                {
                    match &list[k].backup_folder {
                        Some(other) => {
                            if same_text(other.as_str(), id.as_str()) {
                                present = true;
                                assert(crate::windows::window::opt_view(list@[k as int].backup_folder) == Some(id@));
                            }
                        },
                        None => {},
                    }
                    k = k + 1;
                }
            },
            None => {},
        }
        if !present {
            let ghost before = list@;
            list.push(more[i].clone());
            proof {
                assert(list@.subrange(0, start.len() as int) =~= before.subrange(0, start.len() as int));
                assert(more@.contains(list@[before.len() as int]));
                assert forall|j: int| 0 <= j <= i && (#[trigger] more@[j]).backup_folder is Some implies restores(
                    list@,
                    more@[j].backup_folder->0@,
                ) by {
                    if j == i {
                        assert(crate::windows::window::opt_view(list@[before.len() as int].backup_folder) == Some(
                            more@[j].backup_folder->0@,
                        ));
                    } else {
                        let k = choose|k: int| 0 <= k < before.len() && #[trigger] crate::windows::window::opt_view(
                            before[k].backup_folder,
                        ) == Some(more@[j].backup_folder->0@);
                        assert(list@[k] == before[k]);
                    }
                }
                assert forall|k: int| start.len() <= k < list@.len() implies more@.contains(#[trigger] list@[k]) by {
                    if k < before.len() {
                        assert(list@[k] == before[k]);
                    }
                }
                assert forall|k: int, m: int| 0 <= m < k < list@.len() && start.len() <= k
                    && #[trigger] list@[k].backup_folder is Some implies crate::windows::window::opt_view(
                    #[trigger] list@[m].backup_folder,
                ) != crate::windows::window::opt_view(list@[k].backup_folder) by {
                    if k < before.len() {
                        assert(list@[k] == before[k] && list@[m] == before[m]);
                    } else {
                        assert(list@[m] == before[m]);
                    }
                }
            }
        } else {
            proof {
                assert forall|j: int| 0 <= j <= i && (#[trigger] more@[j]).backup_folder is Some implies restores(
                    list@,
                    more@[j].backup_folder->0@,
                ) by {}
            }
        }
        i = i + 1;
    }
}

/// The files that an action hands to a window: an open files payload, or
/// the files of a created window.
pub open spec fn carried_files(a: WindowAction) -> Seq<String> {
    match a {
        WindowAction::OpenFiles(_, p) => p.files_to_open_or_create@,
        WindowAction::Create(w) => w.configuration.files_to_open_or_create@,
        _ => Seq::empty(),
    }
}

/// The window that an action is for; the add folders event counts for none.
pub open spec fn action_target(a: WindowAction) -> Option<Seq<char>> {
    match a {
        WindowAction::Focus(l) => Some(l@),
        WindowAction::OpenFiles(l, _) => Some(l@),
        WindowAction::AddFolders(_, _) => None,
        WindowAction::Create(w) => Some(w.label@),
    }
}

/// The action is an add folders event.
pub open spec fn is_add_folders(a: WindowAction) -> bool {
    a is AddFolders
}

/// No action of `s` from position `from` on is an add folders event.
pub open spec fn no_add_folders_from(s: Seq<WindowAction>, from: int) -> bool {
    forall|k: int| from <= k < s.len() ==> !(#[trigger] s[k] is AddFolders)
}

/// `actions` extends `base` with no add folders event, and, when `target`
/// is given, ends with an action for that window.
pub open spec fn planned_after(actions: Seq<WindowAction>, base: Seq<WindowAction>, target: Option<Seq<char>>) -> bool {
    &&& actions.len() >= base.len()
    &&& actions.subrange(0, base.len() as int) == base
    &&& no_add_folders_from(actions, base.len() as int)
    &&& target is Some ==> actions.len() > base.len() && action_target(actions.last()) == target
}

/// Planning one more action for a window keeps extending `base`.
proof fn lemma_plan_one_more(a: Seq<WindowAction>, b: Seq<WindowAction>, base: Seq<WindowAction>, t: Option<Seq<char>>)
    requires
        planned_after(a, base, t),
        b.len() == a.len() + 1,
        b.drop_last() == a,
        action_target(b.last()) is Some,
    ensures
        planned_after(b, base, action_target(b.last())),
{
    assert(b.subrange(0, base.len() as int) =~= a.subrange(0, base.len() as int));
    assert forall|k: int| base.len() <= k < b.len() implies !(#[trigger] b[k] is AddFolders) by {
        if k < a.len() {
            assert(b[k] == a[k]);
        }
    }
}

/// Some window of `m` shows `folder`.
pub open spec fn map_shows(m: Map<Seq<char>, WindowState>, folder: Seq<char>) -> bool {
    exists|l: Seq<char>| m.contains_key(l) && shows_folder(#[trigger] m[l], folder)
}

/// The folder of the window that the action creates, if it creates one with a folder.
pub open spec fn created_folder(a: WindowAction) -> Option<Seq<char>> {
    match a {
        WindowAction::Create(w) => crate::windows::window::opt_view(w.configuration.folder),
        _ => None,
    }
}

/// Some action of `s` from position `from` on creates a window for `folder`.
pub open spec fn creates_for(s: Seq<WindowAction>, from: int, folder: Seq<char>) -> bool {
    exists|k: int| from <= k < s.len() && #[trigger] created_folder(s[k]) == Some(folder)
}

/// Every folder that a window of `new_m` shows was shown in `old_m`, or
/// some action of `s` from `from` on creates a window for it.
pub open spec fn shows_only_planned(
    old_m: Map<Seq<char>, WindowState>,
    new_m: Map<Seq<char>, WindowState>,
    s: Seq<WindowAction>,
    from: int,
) -> bool {
    forall|f: Seq<char>| #[trigger] map_shows(new_m, f) ==> map_shows(old_m, f) || creates_for(s, from, f)
}

proof fn lemma_shows_unchanged(m: Map<Seq<char>, WindowState>, s: Seq<WindowAction>, from: int)
    ensures
        shows_only_planned(m, m, s, from),
{
}

/// Recording a created window keeps every shown folder accounted for.
proof fn lemma_shows_created(
    om: Map<Seq<char>, WindowState>,
    nm: Map<Seq<char>, WindowState>,
    s0: Seq<WindowAction>,
    s1: Seq<WindowAction>,
    label: Seq<char>,
    folder: Option<String>,
)
    requires
        nm == om.insert(label, nm[label]),
        nm[label].folder == folder,
        s1.len() == s0.len() + 1,
        created_folder(s1.last()) == crate::windows::window::opt_view(folder),
    ensures
        shows_only_planned(om, nm, s1, s0.len() as int),
{
    assert forall|f: Seq<char>| #[trigger] map_shows(nm, f) implies map_shows(om, f) || creates_for(
        s1,
        s0.len() as int,
        f,
    ) by {
        let l = choose|l: Seq<char>| nm.contains_key(l) && shows_folder(#[trigger] nm[l], f);
        if l == label {
            assert(created_folder(s1[s0.len() as int]) == Some(f));
        } else {
            assert(om.contains_key(l) && om[l] == nm[l]);
        }
    }
}

/// Actions planned later keep earlier creations.
proof fn lemma_creates_grow(s1: Seq<WindowAction>, s2: Seq<WindowAction>, from: int)
    requires
        0 <= from,
        s2.len() >= s1.len(),
        s2.subrange(0, s1.len() as int) == s1,
    ensures
        forall|f: Seq<char>| #[trigger] creates_for(s1, from, f) ==> creates_for(s2, from, f),
{
    assert forall|f: Seq<char>| #[trigger] creates_for(s1, from, f) implies creates_for(s2, from, f) by {
        let k = choose|k: int| from <= k < s1.len() && #[trigger] created_folder(s1[k]) == Some(f);
        assert(s1[k] == s2.subrange(0, s1.len() as int)[k]);
    }
}

/// Accounting for shown folders composes over consecutive steps.
proof fn lemma_shows_trans(
    m0: Map<Seq<char>, WindowState>,
    m1: Map<Seq<char>, WindowState>,
    m2: Map<Seq<char>, WindowState>,
    s1: Seq<WindowAction>,
    s2: Seq<WindowAction>,
    from: int,
)
    requires
        shows_only_planned(m0, m1, s1, from),
        shows_only_planned(m1, m2, s2, s1.len() as int),
        s2.len() >= s1.len(),
        s2.subrange(0, s1.len() as int) == s1,
        0 <= from <= s1.len(),
    ensures
        shows_only_planned(m0, m2, s2, from),
{
    lemma_creates_grow(s1, s2, from);
    assert forall|f: Seq<char>| #[trigger] map_shows(m2, f) implies map_shows(m0, f) || creates_for(s2, from, f) by {
        if map_shows(m1, f) {
        } else {
            let k = choose|k: int| s1.len() <= k < s2.len() && #[trigger] created_folder(s2[k]) == Some(f);
        }
    }
}

/// The action delivers exactly `files` to a window of `m` that shows the
/// first folder of `folders` shown by any window of `m`.
pub open spec fn sends_files_to_folder_window(
    a: WindowAction,
    files: Seq<String>,
    m: Map<Seq<char>, WindowState>,
    folders: Seq<PathToOpen>,
) -> bool {
    match a {
        WindowAction::OpenFiles(w, p) => p.files_to_open_or_create@ == files && m.contains_key(w@) && first_shown_by(
            m[w@],
            folders,
            m,
        ),
        _ => false,
    }
}

/// Some action of `s` from `from` on delivers `files` to the window of `m`
/// showing the first shown folder of `folders`.
pub open spec fn gives_files(
    s: Seq<WindowAction>,
    from: int,
    files: Seq<String>,
    m: Map<Seq<char>, WindowState>,
    folders: Seq<PathToOpen>,
) -> bool {
    exists|k: int| from <= k < s.len() && #[trigger] sends_files_to_folder_window(s[k], files, m, folders)
}

/// Actions planned later keep an earlier delivery.
proof fn lemma_gives_grow(
    s1: Seq<WindowAction>,
    s2: Seq<WindowAction>,
    from: int,
    files: Seq<String>,
    m: Map<Seq<char>, WindowState>,
    folders: Seq<PathToOpen>,
)
    requires
        0 <= from,
        s2.len() >= s1.len(),
        s2.subrange(0, s1.len() as int) == s1,
        gives_files(s1, from, files, m, folders),
    ensures
        gives_files(s2, from, files, m, folders),
{
    let k = choose|k: int| from <= k < s1.len() && #[trigger] sends_files_to_folder_window(s1[k], files, m, folders);
    assert(s1[k] == s2.subrange(0, s1.len() as int)[k]);
}

/// The action creates a window staged at `staging`.
pub open spec fn creates_staged_at(a: WindowAction, staging: Seq<char>) -> bool {
    match a {
        WindowAction::Create(w) => w.configuration.backup_path is Some && w.configuration.backup_path->0@ == staging,
        _ => false,
    }
}

/// Some action of `s` from `from` on creates a window staged at `staging`.
pub open spec fn creates_staged(s: Seq<WindowAction>, from: int, staging: Seq<char>) -> bool {
    exists|k: int| from <= k < s.len() && #[trigger] creates_staged_at(s[k], staging)
}

/// Actions planned later keep earlier staged creations.
proof fn lemma_staged_grow(s1: Seq<WindowAction>, s2: Seq<WindowAction>, from: int)
    requires
        0 <= from,
        s2.len() >= s1.len(),
        s2.subrange(0, s1.len() as int) == s1,
    ensures
        forall|g: Seq<char>| #[trigger] creates_staged(s1, from, g) ==> creates_staged(s2, from, g),
{
    assert forall|g: Seq<char>| #[trigger] creates_staged(s1, from, g) implies creates_staged(s2, from, g) by {
        let k = choose|k: int| from <= k < s1.len() && #[trigger] creates_staged_at(s1[k], g);
        assert(s1[k] == s2.subrange(0, s1.len() as int)[k]);
    }
}

/// Some window of the list shows `folder`.
pub open spec fn seq_shows(s: Seq<(String, WindowState)>, folder: Seq<char>) -> bool {
    exists|k: int| 0 <= k < s.len() && shows_folder(#[trigger] s[k].1, folder)
}

/// With unique labels, a folder is shown in the list exactly when it is
/// shown in the map by label.
proof fn lemma_seq_map_shows(s: Seq<(String, WindowState)>, f: Seq<char>)
    requires
        labels_unique(s),
    ensures
        seq_shows(s, f) == map_shows(crate::windows::window::windows_map(s), f),
{
    let m = crate::windows::window::windows_map(s);
    if seq_shows(s, f) {
        let k = choose|k: int| 0 <= k < s.len() && shows_folder(#[trigger] s[k].1, f);
        crate::windows::window::lemma_label_index(s, k);
        assert(m.contains_key(s[k].0@) && shows_folder(m[s[k].0@], f));
    }
    if map_shows(m, f) {
        let l = choose|l: Seq<char>| m.contains_key(l) && shows_folder(#[trigger] m[l], f);
        assert(has_label(s, l));
        let k = choose|k: int| 0 <= k < s.len() && #[trigger] s[k].0@ == l;
        crate::windows::window::lemma_label_index(s, k);
    }
}

/// Entry `i` asks for a folder that an earlier entry already asks for.
pub open spec fn dup_before(v: Seq<PathToOpen>, i: int) -> bool {
    v[i].folder is Some && exists|j: int|
        0 <= j < i && (#[trigger] v[j]).folder is Some && v[j].folder->0@ == v[i].folder->0@
}

/// Entry `i` opens a window: its folder is not shown in `m` and no earlier
/// entry asks for it.
pub open spec fn opens_at(v: Seq<PathToOpen>, m: Map<Seq<char>, WindowState>, i: int) -> bool {
    &&& !(v[i].folder is Some && map_shows(m, v[i].folder->0@))
    &&& !dup_before(v, i)
}

/// Every folder that an action of `s` from `from` on creates a window for is
/// asked for by an entry of `v` before `upto` that opens a window.
pub open spec fn created_requested(
    s: Seq<WindowAction>,
    from: int,
    v: Seq<PathToOpen>,
    m: Map<Seq<char>, WindowState>,
    upto: int,
) -> bool {
    forall|k: int| from <= k < s.len() && (#[trigger] created_folder(s[k])) is Some ==> exists|j: int|
        0 <= j < upto && j < v.len() && opens_at(v, m, j) && (#[trigger] v[j]).folder is Some
            && created_folder(s[k]) == Some(v[j].folder->0@)
}

/// No two actions of `s` from `from` on create a window for the same folder.
pub open spec fn creates_once(s: Seq<WindowAction>, from: int) -> bool {
    forall|k1: int, k2: int|
        from <= k1 < s.len() && from <= k2 < s.len() && (#[trigger] created_folder(s[k1])) is Some
            && created_folder(s[k1]) == #[trigger] created_folder(s[k2]) ==> k1 == k2
}

/// No action of `s` from `from` on hands files to a window.
pub open spec fn no_carrier(s: Seq<WindowAction>, from: int) -> bool {
    forall|k: int| from <= k < s.len() ==> (#[trigger] carried_files(s[k])).len() == 0
}

/// Exactly one action of `s` from `from` on hands files to a window, and
/// it hands exactly `fs`.
pub open spec fn one_carrier(s: Seq<WindowAction>, from: int, fs: Seq<String>) -> bool {
    exists|k: int| from <= k < s.len() && #[trigger] carried_files(s[k]) == fs && forall|k2: int|
        from <= k2 < s.len() && k2 != k ==> (#[trigger] carried_files(s[k2])).len() == 0
}

/// The pending files `cur` are either all of `fs`, not handed to any window
/// yet, or none, with `fs` handed over by exactly one action.
pub open spec fn files_accounted(s: Seq<WindowAction>, from: int, fs: Seq<String>, cur: Seq<String>) -> bool {
    &&& cur == fs || cur.len() == 0
    &&& cur == fs && fs.len() > 0 ==> no_carrier(s, from)
    &&& cur.len() == 0 && fs.len() > 0 ==> one_carrier(s, from, fs)
    &&& fs.len() == 0 ==> no_carrier(s, from)
}

/// Handing the pending files to one more action leaves none pending.
proof fn lemma_files_handed(s1: Seq<WindowAction>, s2: Seq<WindowAction>, from: int, fs: Seq<String>, cur: Seq<String>)
    requires
        0 <= from <= s1.len(),
        files_accounted(s1, from, fs, cur),
        s2.len() == s1.len() + 1,
        s2.drop_last() == s1,
        carried_files(s2.last()) == cur,
    ensures
        files_accounted(s2, from, fs, Seq::empty()),
{
    let n = s1.len() as int;
    assert forall|k: int| from <= k < n implies s2[k] == s1[k] by {
        assert(s2.drop_last()[k] == s2[k]);
    }
    assert(s2[n] == s2.last());
    if fs.len() > 0 {
        if cur == fs {
            assert forall|k2: int| from <= k2 < s2.len() && k2 != n implies (#[trigger] carried_files(s2[k2])).len() == 0 by {
                assert(s2[k2] == s1[k2]);
            }
            assert(one_carrier(s2, from, fs));
        } else {
            let k = choose|k: int| from <= k < s1.len() && #[trigger] carried_files(s1[k]) == fs && forall|k2: int|
                from <= k2 < s1.len() && k2 != k ==> (#[trigger] carried_files(s1[k2])).len() == 0;
            assert(s2[k] == s1[k]);
            assert forall|k2: int| from <= k2 < s2.len() && k2 != k implies (#[trigger] carried_files(s2[k2])).len() == 0 by {
                if k2 < n {
                    assert(s2[k2] == s1[k2]);
                }
            }
        }
    } else {
        assert forall|k: int| from <= k < s2.len() implies (#[trigger] carried_files(s2[k])).len() == 0 by {
            if k < n {
                assert(s2[k] == s1[k]);
            }
        }
    }
}

/// What one planned action for a window keeps true of an open request
/// started at `o`: growth, the plan after the add folders step, the shown
/// folders, earlier creations and deliveries, and the pending files.
proof fn lemma_open_step(
    o: &WindowsAPI,
    b: &WindowsAPI,
    a: &WindowsAPI,
    after1: Seq<WindowAction>,
    target: Option<Seq<char>>,
    files: Seq<String>,
    folders: Seq<PathToOpen>,
    cur: Seq<String>,
    req: Seq<PathToOpen>,
    upto: int,
)
    requires
        b.grows_from(o),
        a.grows_from(b),
        planned_after(b.actions@, after1, target),
        after1.len() >= o.actions@.len(),
        a.actions@.len() == b.actions@.len() + 1,
        a.actions@.drop_last() == b.actions@,
        action_target(a.actions@.last()) is Some,
        shows_only_planned(o.states.state_map(), b.states.state_map(), b.actions@, o.actions@.len() as int),
        a.states == b.states || shows_only_planned(
            b.states.state_map(),
            a.states.state_map(),
            a.actions@,
            b.actions@.len() as int,
        ),
        files_accounted(b.actions@, o.actions@.len() as int, files, cur),
        carried_files(a.actions@.last()) == cur,
    ensures
        a.grows_from(o),
        planned_after(a.actions@, after1, action_target(a.actions@.last())),
        shows_only_planned(o.states.state_map(), a.states.state_map(), a.actions@, o.actions@.len() as int),
        forall|f: Seq<char>| #[trigger] creates_for(b.actions@, o.actions@.len() as int, f)
            ==> creates_for(a.actions@, o.actions@.len() as int, f),
        forall|g: Seq<char>| #[trigger] creates_staged(b.actions@, o.actions@.len() as int, g)
            ==> creates_staged(a.actions@, o.actions@.len() as int, g),
        gives_files(b.actions@, o.actions@.len() as int, files, o.states.state_map(), folders) ==> gives_files(
            a.actions@,
            o.actions@.len() as int,
            files,
            o.states.state_map(),
            folders,
        ),
        files_accounted(a.actions@, o.actions@.len() as int, files, Seq::empty()),
        created_folder(a.actions@.last()) is None && created_requested(
            b.actions@,
            o.actions@.len() as int,
            req,
            o.states.state_map(),
            upto,
        ) ==> created_requested(a.actions@, o.actions@.len() as int, req, o.states.state_map(), upto),
        created_folder(a.actions@.last()) is None && creates_once(b.actions@, o.actions@.len() as int)
            ==> creates_once(a.actions@, o.actions@.len() as int),
{
    let from = o.actions@.len() as int;
    let n = b.actions@.len() as int;
    lemma_grows_trans(o, b, a);
    lemma_plan_one_more(b.actions@, a.actions@, after1, target);
    if a.states == b.states {
        lemma_shows_unchanged(a.states.state_map(), a.actions@, n);
    }
    lemma_shows_trans(o.states.state_map(), b.states.state_map(), a.states.state_map(), b.actions@, a.actions@, from);
    lemma_creates_grow(b.actions@, a.actions@, from);
    lemma_staged_grow(b.actions@, a.actions@, from);
    if gives_files(b.actions@, from, files, o.states.state_map(), folders) {
        lemma_gives_grow(b.actions@, a.actions@, from, files, o.states.state_map(), folders);
    }
    lemma_files_handed(b.actions@, a.actions@, from, files, cur);
    assert forall|k: int| from <= k < n implies a.actions@[k] == b.actions@[k] by {
        assert(a.actions@.drop_last()[k] == a.actions@[k]);
    }
    assert(a.actions@[n] == a.actions@.last());
}

/// The window shows the first folder of `folders` that some window of `m` shows.
pub open spec fn first_shown_by(st: WindowState, folders: Seq<PathToOpen>, m: Map<Seq<char>, WindowState>) -> bool {
    exists|j: int|
        0 <= j < folders.len() && (#[trigger] folders[j]).folder is Some && shows_folder(st, folders[j].folder->0@)
            && forall|j2: int| 0 <= j2 < j && (#[trigger] folders[j2]).folder is Some ==> !map_shows(m, folders[j2].folder->0@)
}

/// Whether entry `i` asks for a folder that an earlier entry already asks for.
fn appears_before(folders: &Vec<PathToOpen>, i: usize) -> (r: bool)
    requires
        i < folders@.len(),
    ensures
        r == dup_before(folders@, i as int),
{
    match &folders[i].folder {
        None => false,
        Some(f) => {
            let mut j: usize = 0;
            while j < i
                invariant
                    j <= i,
                    i < folders@.len(),
                    folders@[i as int].folder is Some && folders@[i as int].folder->0 == *f,
                    forall|m: int| 0 <= m < j ==> !((#[trigger] folders@[m]).folder is Some && folders@[m].folder->0@ == f@),
                decreases i - j,
            {
                match &folders[j].folder {
                    Some(g) => {
                        if *g == *f {
                            assert(folders@[j as int].folder is Some && folders@[j as int].folder->0@ == f@);
                            return true;
                        }
                    },
                    None => {},
                }
                j = j + 1;
            }
            false
        },
    }
}

/// Planning one more action keeps every created folder a requested one
/// opening a window, created once, when the new action creates at most the
/// folder of entry `i`.
proof fn lemma_created_step(
    s1: Seq<WindowAction>,
    s2: Seq<WindowAction>,
    from: int,
    v: Seq<PathToOpen>,
    m: Map<Seq<char>, WindowState>,
    i: int,
)
    requires
        0 <= from <= s1.len(),
        0 <= i < v.len(),
        created_requested(s1, from, v, m, i),
        creates_once(s1, from),
        s2.len() == s1.len() + 1,
        s2.drop_last() == s1,
        created_folder(s2.last()) is Some ==> opens_at(v, m, i) && v[i].folder is Some && created_folder(s2.last())
            == Some(v[i].folder->0@),
    ensures
        created_requested(s2, from, v, m, i + 1),
        creates_once(s2, from),
{
    let n = s1.len() as int;
    assert forall|k: int| from <= k < n implies s2[k] == s1[k] by {
        assert(s2.drop_last()[k] == s2[k]);
    }
    assert(s2[n] == s2.last());
    assert forall|k: int| from <= k < s2.len() && (#[trigger] created_folder(s2[k])) is Some implies exists|j: int|
        0 <= j < i + 1 && j < v.len() && opens_at(v, m, j) && (#[trigger] v[j]).folder is Some
            && created_folder(s2[k]) == Some(v[j].folder->0@) by {
        if k < n {
            assert(s2[k] == s1[k]);
            assert(created_folder(s1[k]) is Some);
        } else {
            assert(v[i].folder is Some);
        }
    }
    assert forall|k1: int, k2: int|
        from <= k1 < s2.len() && from <= k2 < s2.len() && (#[trigger] created_folder(s2[k1])) is Some
            && created_folder(s2[k1]) == #[trigger] created_folder(s2[k2]) implies k1 == k2 by {
        if k1 < n && k2 < n {
            assert(s2[k1] == s1[k1] && s2[k2] == s1[k2]);
        } else if k1 < n || k2 < n {
            let k = if k1 < n { k1 } else { k2 };
            assert(s2[k] == s1[k]);
            assert(created_folder(s1[k]) is Some);
            let j = choose|j: int| 0 <= j < i && j < v.len() && opens_at(v, m, j) && (#[trigger] v[j]).folder is Some
                && created_folder(s1[k]) == Some(v[j].folder->0@);
            assert(dup_before(v, i));
        }
    }
}

/// Entry `i` restores a workspace that an earlier entry already restores.
pub open spec fn restored_before_spec(v: Seq<EmptyWindowBackupInfo>, i: int) -> bool {
    v[i].backup_folder is Some && exists|j: int|
        0 <= j < i && (#[trigger] v[j]).backup_folder is Some && v[j].backup_folder->0@ == v[i].backup_folder->0@
}

/// Whether entry `i` restores a workspace that an earlier entry already restores.
fn restored_before(list: &Vec<EmptyWindowBackupInfo>, i: usize) -> (r: bool)
    requires
        i < list@.len(),
    ensures
        r == restored_before_spec(list@, i as int),
{
    match &list[i].backup_folder {
        None => false,
        Some(f) => {
            let mut j: usize = 0;
            while j < i
                invariant
                    j <= i,
                    i < list@.len(),
                    list@[i as int].backup_folder is Some && list@[i as int].backup_folder->0 == *f,
                    forall|m: int| 0 <= m < j ==> !((#[trigger] list@[m]).backup_folder is Some && list@[m].backup_folder->0@ == f@),
                decreases i - j,
            {
                match &list[j].backup_folder {
                    Some(g) => {
                        if *g == *f {
                            assert(list@[j as int].backup_folder is Some && list@[j as int].backup_folder->0@ == f@);
                            return true;
                        }
                    },
                    None => {},
                }
                j = j + 1;
            }
            false
        },
    }
}

/// Options for a window of this request, with nothing else set.
fn base_options(configuration: &OpenConfiguration, force_new_window: bool, files_to_open: FilesToOpen) -> (r: WindowOptions)
    ensures
        r.initial_startup == configuration.initial_startup,
        r.force_new_window == force_new_window,
        r.force_new_tabbed_window == configuration.force_new_tabbed_window,
        r.files_to_open == files_to_open,
        r.label is None && r.url is None && r.window_to_use is None && r.folder is None,
        r.empty_window_backup_info is None,
{
    WindowOptions {
        theme: None,
        label: None,
        url: None,
        always_on_top: None,
        center: false,
        decorations: None,
        focus: false,
        fullscreen: None,
        maximized: None,
        resizable: None,
        skip_taskbar: None,
        title: None,
        transparent: None,
        visible: None,
        initial_startup: configuration.initial_startup,
        force_new_window,
        force_new_tabbed_window: configuration.force_new_tabbed_window,
        force_reuse_window: false,
        force_empty_window: false,
        empty_window_backup_info: None,
        files_to_open,
        window_to_use: None,
        folder: None,
    }
}

/// The window manager: settings, the three caches, and the actions that
/// the windowing host still has to carry out.
pub struct WindowsAPI {
    pub settings: InnerWindowsSettings,
    pub states: InnerWindowsStateCache,
    pub backups: InnerWindowsBackupCache,
    pub recents: InnerWindowsRecentsCache,
    /// Number of the next window label to give.
    pub next_window_id: u64,
    /// Actions planned for the windowing host, oldest first.
    pub actions: Vec<WindowAction>,
}

impl WindowsAPI {
    pub open spec fn wf(&self) -> bool {
        self.states.wf() && self.backups.wf()
    }

    /// Every window known in `o` is still known, and nothing else changed
    /// but the window list, the backups and the planned actions, which only grew.
    pub open spec fn grows_from(&self, o: &Self) -> bool {
        &&& self.backups.backup_path == o.backups.backup_path
        &&& forall|k: Seq<char>| #[trigger] o.states.state_map().contains_key(k)
            ==> self.states.state_map().contains_key(k)
        &&& self.states.unchanged_but_windows(&o.states)
        &&& self.settings == o.settings
        &&& self.recents == o.recents
        &&& self.actions@.len() >= o.actions@.len()
        &&& self.actions@.subrange(0, o.actions@.len() as int) == o.actions@
    }

    /// A manager over the given settings and caches, with no action planned;
    /// window labels start at `windows_1`.
    pub fn new(
        settings: InnerWindowsSettings,
        states: InnerWindowsStateCache,
        backups: InnerWindowsBackupCache,
        recents: InnerWindowsRecentsCache,
    ) -> (r: Self)
        ensures
            r.settings == settings,
            r.states == states,
            r.backups == backups,
            r.recents == recents,
            r.next_window_id == 1,
            r.actions@.len() == 0,
    {
        WindowsAPI { settings, states, backups, recents, next_window_id: 1, actions: Vec::new() }
    }

    /// Hands over the planned actions, oldest first, and forgets them.
    pub fn take_actions(&mut self) -> (r: Vec<WindowAction>)
        ensures
            r@ == old(self).actions@,
            final(self).actions@.len() == 0,
            final(self).states == old(self).states,
            final(self).backups == old(self).backups,
            final(self).recents == old(self).recents,
            final(self).settings == old(self).settings,
            final(self).next_window_id == old(self).next_window_id,
    {
        let mut taken: Vec<WindowAction> = Vec::new();
        std::mem::swap(&mut taken, &mut self.actions);
        taken
    }

    /// A new window label, `windows_` and the next number.
    pub fn new_window_label(&mut self) -> (r: String)
        requires
            old(self).wf(),
        ensures
            r@ == window_label(old(self).fresh_label_id()),
            old(self).fresh_label_id() < u64::MAX ==> !old(self).states.state_map().contains_key(r@),
            final(self).next_window_id == crate::windows::window::next_after(old(self).fresh_label_id()),
            final(self).states == old(self).states,
            final(self).backups == old(self).backups,
            final(self).recents == old(self).recents,
            final(self).settings == old(self).settings,
            final(self).actions == old(self).actions,
    {
        let mut id = self.next_window_id;
        let mut label = label_for(id);
        loop
            invariant
                self.wf(),
                label@ == window_label(id),
                first_free_label(self.states.state_map(), id) == old(self).fresh_label_id(),
                *self == *old(self),
            ensures
                label@ == window_label(id),
                id == old(self).fresh_label_id(),
                *self == *old(self),
            decreases u64::MAX - id,
        {
            if id == u64::MAX || self.states.index_of(label.as_str()).is_none() {
                assert(first_free_label(self.states.state_map(), id) == id);
                break;
            }
            assert(first_free_label(self.states.state_map(), id) == first_free_label(
                self.states.state_map(),
                (id + 1) as u64,
            ));
            id = id + 1;
            label = label_for(id);
        }
        proof {
            lemma_first_free_label(self.states.state_map(), old(self).next_window_id);
        }
        self.next_window_id = if id == u64::MAX { 0 } else { id + 1 };
        label
    }

    /// The number of the label that the next created window gets.
    pub open spec fn fresh_label_id(&self) -> u64 {
        first_free_label(self.states.state_map(), self.next_window_id)
    }

    /// The next window number; numbers follow each other.
    pub fn get_id(&mut self) -> (r: u64)
        ensures
            r == old(self).next_window_id,
            final(self).next_window_id == crate::windows::window::next_after(old(self).next_window_id),
            final(self).states == old(self).states,
            final(self).backups == old(self).backups,
            final(self).recents == old(self).recents,
            final(self).settings == old(self).settings,
            final(self).actions == old(self).actions,
    {
        let id = self.next_window_id;
        self.next_window_id = if id == u64::MAX { 0 } else { id + 1 };
        id
    }

    /// No window is tracked as focused.
    pub fn get_focused_window(&self) -> (r: Option<String>)
        ensures
            r is None,
    {
        None
    }

    /// The window focused last.
    pub fn get_last_active_window(&self) -> (r: Option<String>)
        ensures
            r == last_active_label(self.states.windows()),
    {
        last_active_window(&self.states)
    }

    /// Registers the backup of what a window now shows: its folder, or else
    /// an empty workspace (`candidate`, or a new id); returns the staging location.
    fn register_backup(&mut self, folder: &Option<String>, candidate: &Option<String>, window: &String) -> (r: (
        String,
        Option<String>,
    ))
        requires
            old(self).wf(),
        ensures
            final(self).wf(),
            final(self).states == old(self).states,
            final(self).recents == old(self).recents,
            final(self).settings == old(self).settings,
            final(self).actions == old(self).actions,
            final(self).next_window_id == old(self).next_window_id,
            backup_registered(&old(self).backups, &final(self).backups, *folder, *candidate, window@),
            folder is None ==> r.0@ == crate::text::joined(old(self).backups.backup_path@, r.1->0@),
            folder is Some ==> r.1 is None,
            folder is None ==> r.1 is Some && r.1->0@ == match candidate {
                Some(c) => c@,
                None => crate::text::decimal(old(self).backups.minted_id() as nat),
            },
    {
        match folder {
            Some(f) => (self.backups.add_folder_backup(f.as_str(), window.as_str()), None),
            None => {
                let id = match candidate {
                    Some(c) => c.clone(),
                    None => self.backups.get_random_empty_window_id(),
                };
                let staging = self.backups.add_empty_window_backup(&Some(id.clone()), window.as_str());
                (staging, Some(id))
            },
        }
    }


    /// Plans delivering the open files event to an existing window.
    fn open_files_in_existing_window(&mut self, window: &String, files_to_open: &FilesToOpen) -> (r: Result<(), Error>)
        ensures
            r is Ok,
            final(self).actions@.len() == old(self).actions@.len() + 1,
            final(self).actions@.drop_last() == old(self).actions@,
            match final(self).actions@.last() {
                WindowAction::OpenFiles(w, payload) => w == *window
                    && payload.files_to_open_or_create@ == files_to_open.files_to_open_or_create@,
                _ => false,
            },
            final(self).states == old(self).states,
            final(self).backups == old(self).backups,
            final(self).recents == old(self).recents,
            final(self).settings == old(self).settings,
            final(self).next_window_id == old(self).next_window_id,
    {
        let payload = OpenFilePayload {
            files_to_open_or_create: crate::windows::window::clone_strings(&files_to_open.files_to_open_or_create),
        };
        self.actions.push(WindowAction::OpenFiles(window.clone(), payload));
        assert(self.actions@.drop_last() =~= old(self).actions@);
        Ok(())
    }

    /// Plans delivering the add folders event to an existing window.
    fn add_folders_to_existing_window(&mut self, window: &String, folders_to_add: &Vec<PathToOpen>) -> (r: Result<(), Error>)
        ensures
            r is Ok,
            final(self).actions@.len() == old(self).actions@.len() + 1,
            final(self).actions@.drop_last() == old(self).actions@,
            match final(self).actions@.last() {
                WindowAction::AddFolders(w, payload) => w == *window && payload.folders_to_add@ == folders_to_add@,
                _ => false,
            },
            final(self).states == old(self).states,
            final(self).backups == old(self).backups,
            final(self).recents == old(self).recents,
            final(self).settings == old(self).settings,
            final(self).next_window_id == old(self).next_window_id,
    {
        let payload = AddFolderPayload { folders_to_add: clone_paths(folders_to_add) };
        self.actions.push(WindowAction::AddFolders(window.clone(), payload));
        assert(self.actions@.drop_last() =~= old(self).actions@);
        Ok(())
    }

    /// Opens a window with these options: reuses the requested or last
    /// active window unless a new one is forced (bringing it to the front, or
    /// handing it the files when there are some), and otherwise plans creating
    /// one (labelled by the options, or `windows_` and the next number) and
    /// records its state. Either way the window's folder or empty workspace
    /// gets a backup owned by the window.
    pub fn open_in_webview_window(&mut self, options: WindowOptions) -> (r: Result<String, Error>)
        requires
            old(self).wf(),
        ensures
            final(self).wf(),
            final(self).grows_from(old(self)),
            r is Ok,
            final(self).states.state_map().contains_key(r->Ok_0@),
            final(self).actions@.len() == old(self).actions@.len() + 1,
            final(self).actions@.drop_last() == old(self).actions@,
            action_target(final(self).actions@.last()) == Some(r->Ok_0@),
            carried_files(final(self).actions@.last()) == options.files_to_open.files_to_open_or_create@,
            created_folder(final(self).actions@.last()) is Some ==> created_folder(final(self).actions@.last())
                == crate::windows::window::opt_view(options.folder),
            shows_only_planned(
                old(self).states.state_map(),
                final(self).states.state_map(),
                final(self).actions@,
                old(self).actions@.len() as int,
            ),
            backup_registered(&old(self).backups, &final(self).backups, options.folder, backup_candidate(options), r->Ok_0@),
            match reused_window(old(self).states.windows(), options) {
                Some(l) => {
                    &&& r->Ok_0 == l
                    &&& final(self).states == old(self).states
                    &&& created_folder(final(self).actions@.last()) is None
                    &&& final(self).next_window_id == old(self).next_window_id
                },
                None => {
                    &&& r->Ok_0@ == match options.label {
                        Some(l) => l@,
                        None => window_label(old(self).fresh_label_id()),
                    }
                    &&& final(self).states.state_map() == old(self).states.state_map().insert(
                        r->Ok_0@,
                        final(self).states.state_map()[r->Ok_0@],
                    )
                    &&& final(self).states.state_map()[r->Ok_0@].folder == options.folder
                    &&& final(self).states.state_map()[r->Ok_0@].configuration.folder == options.folder
                    &&& final(self).states.state_map()[r->Ok_0@].configuration.files_to_open_or_create@
                        == options.files_to_open.files_to_open_or_create@
                    &&& options.label is None && old(self).fresh_label_id() < u64::MAX
                        ==> !old(self).states.state_map().contains_key(r->Ok_0@)
                    &&& final(self).next_window_id == match options.label {
                        Some(_) => old(self).next_window_id,
                        None => crate::windows::window::next_after(old(self).fresh_label_id()),
                    }
                    &&& final(self).actions@.len() == old(self).actions@.len() + 1
                    &&& final(self).actions@.drop_last() == old(self).actions@
                    &&& (options.folder is None && backup_candidate(options) is Some ==> creates_staged_at(
                        final(self).actions@.last(),
                        crate::text::joined(old(self).backups.backup_path@, backup_candidate(options)->0@),
                    ))
                    &&& match final(self).actions@.last() {
                        WindowAction::Create(w) => w.label@ == r->Ok_0@ && w.configuration.folder == options.folder
                            && w.configuration.files_to_open_or_create@ == options.files_to_open.files_to_open_or_create@,
                        _ => false,
                    }
                },
            },
    {
        let candidate: Option<String> = match &options.empty_window_backup_info {
            Some(info) => clone_opt(&info.backup_folder),
            None => None,
        };
        match self.pick_window(&options) {
            Some(existing) => {
                let _ = self.register_backup(&options.folder, &candidate, &existing);
                assert(self.actions@.subrange(0, old(self).actions@.len() as int) =~= old(self).actions@);
                assert(self.actions@.drop_last() =~= old(self).actions@);
                Ok(existing)
            },
            None => {
                let label = self.create_window(&options, &candidate);
                proof {
                    lemma_shows_created(
                        old(self).states.state_map(),
                        self.states.state_map(),
                        old(self).actions@,
                        self.actions@,
                        label@,
                        options.folder,
                    );
                }
                Ok(label)
            },
        }
    }

    /// The existing window that a window opened with these options reuses;
    /// a reused window is brought to the front.
    fn pick_window(&mut self, options: &WindowOptions) -> (r: Option<String>)
        requires
            old(self).wf(),
        ensures
            r == reused_window(old(self).states.windows(), *options),
            r is Some ==> old(self).states.state_map().contains_key(r->0@),
            r is Some ==> final(self).actions@.len() == old(self).actions@.len() + 1
                && final(self).actions@.drop_last() == old(self).actions@
                && action_target(final(self).actions@.last()) == Some(r->0@)
                && carried_files(final(self).actions@.last()) == options.files_to_open.files_to_open_or_create@
                && created_folder(final(self).actions@.last()) is None,
            r is None ==> final(self).actions@ == old(self).actions@,
            final(self).states == old(self).states,
            final(self).backups == old(self).backups,
            final(self).recents == old(self).recents,
            final(self).settings == old(self).settings,
            final(self).next_window_id == old(self).next_window_id,
    {
        let mut window: Option<String> = None;
        if !options.force_new_window && !options.force_new_tabbed_window {
            window = match &options.window_to_use {
                Some(l) => {
                    if self.states.index_of(l.as_str()).is_some() {
                        Some(l.clone())
                    } else {
                        None
                    }
                },
                None => last_active_window(&self.states),
            };
            if let Some(w) = &window {
                let ghost before = self.actions@;
                if options.files_to_open.files_to_open_or_create.len() == 0 {
                    self.actions.push(WindowAction::Focus(w.clone()));
                } else {
                    let payload = OpenFilePayload {
                        files_to_open_or_create: crate::windows::window::clone_strings(
                            &options.files_to_open.files_to_open_or_create,
                        ),
                    };
                    self.actions.push(WindowAction::OpenFiles(w.clone(), payload));
                }
                assert(self.actions@.drop_last() =~= before);
            }
        }
        proof {
            let s = old(self).states.windows();
            if window is Some {
                if options.window_to_use is None {
                    let i = choose|i: int| is_last_active(s, i);
                    lemma_label_index_known(s, i);
                }
                let l = window->0@;
                let j = choose|j: int| 0 <= j < s.len() && #[trigger] s[j].0@ == l;
                crate::windows::window::lemma_label_index(s, j);
            }
        }
        window
    }

    /// Plans creating a window for these options, records its state, and
    /// registers its backup; returns its label.
    fn create_window(&mut self, options: &WindowOptions, candidate: &Option<String>) -> (r: String)
        requires
            old(self).wf(),
            *candidate == backup_candidate(*options),
        ensures
            final(self).wf(),
            final(self).grows_from(old(self)),
            final(self).states.state_map().contains_key(r@),
            backup_registered(&old(self).backups, &final(self).backups, options.folder, *candidate, r@),
            r@ == match options.label {
                Some(l) => l@,
                None => window_label(old(self).fresh_label_id()),
            },
            final(self).states.state_map() == old(self).states.state_map().insert(
                r@,
                final(self).states.state_map()[r@],
            ),
            final(self).next_window_id == match options.label {
                Some(_) => old(self).next_window_id,
                None => crate::windows::window::next_after(old(self).fresh_label_id()),
            },
            options.label is None && old(self).fresh_label_id() < u64::MAX
                ==> !old(self).states.state_map().contains_key(r@),
            final(self).states.state_map()[r@].folder == options.folder,
            final(self).states.state_map()[r@].configuration.folder == options.folder,
            final(self).states.state_map()[r@].configuration.files_to_open_or_create@
                == options.files_to_open.files_to_open_or_create@,
            final(self).actions@.len() == old(self).actions@.len() + 1,
            final(self).actions@.drop_last() == old(self).actions@,
            match final(self).actions@.last() {
                WindowAction::Create(w) => w.label@ == r@ && w.configuration.folder == options.folder
                    && w.configuration.files_to_open_or_create@ == options.files_to_open.files_to_open_or_create@
                    && (options.folder is None && candidate is Some ==> w.configuration.backup_path is Some
                    && w.configuration.backup_path->0@ == crate::text::joined(old(self).backups.backup_path@, candidate->0@)),
                _ => false,
            },
    {
        let label = match &options.label {
            Some(l) => l.clone(),
            None => self.new_window_label(),
        };
        let url = match &options.url {
            Some(u) => u.clone(),
            None => "index.html".to_owned(),
        };
        let (backup, workspace) = self.register_backup(&options.folder, candidate, &label);
        let files = crate::windows::window::clone_strings(&options.files_to_open.files_to_open_or_create);
        let configuration = WindowConfiguration {
            folder: clone_opt(&options.folder),
            files_to_open_or_create: files,
            full_screen: match options.fullscreen { Some(b) => b, None => false },
            maximized: match options.maximized { Some(b) => b, None => false },
            cache_path: None,
            backup_path: Some(backup),
            home_dir: None,
            tmp_dir: None,
            user_data_dir: None,
            is_initial_startup: options.initial_startup,
        };
        let state = WindowState {
            configuration: configuration.clone(),
            mode: crate::windows::window::WindowMode::Normal,
            display: 0,
            id: 0,
            last_focus_time: 0,
            ready_state: crate::windows::window::ReadyState::Idle,
            backup_path: workspace,
            folder: clone_opt(&options.folder),
        };
        let _ = self.states.set_item(label.as_str(), state);
        let new_window = NewWindow {
            theme: options.theme,
            label: label.clone(),
            url,
            title: match &options.title { Some(t) => t.clone(), None => String::new() },
            always_on_top: match options.always_on_top { Some(b) => b, None => false },
            decorations: match options.decorations { Some(b) => b, None => true },
            fullscreen: match options.fullscreen { Some(b) => b, None => false },
            maximized: match options.maximized { Some(b) => b, None => false },
            resizable: match options.resizable { Some(b) => b, None => true },
            skip_taskbar: match options.skip_taskbar { Some(b) => b, None => false },
            transparent: match options.transparent { Some(b) => b, None => false },
            visible: match options.visible { Some(b) => b, None => true },
            configuration,
        };
        let ghost before = self.actions@;
        self.actions.push(WindowAction::Create(new_window));
        assert(self.actions@.drop_last() =~= before);
        assert(self.actions@.subrange(0, old(self).actions@.len() as int) =~= old(self).actions@);
        assert forall|k: Seq<char>| #[trigger] old(self).states.state_map().contains_key(k)
            implies self.states.state_map().contains_key(k) by {}
        label
    }

    /// Opens a window for a folder (or, without one, an empty window).
    fn open_folder_in_window(
        &mut self,
        configuration: &OpenConfiguration,
        folder_to_open: Option<String>,
        force_new_window: bool,
        files_to_open: Option<FilesToOpen>,
        window_to_use: Option<String>,
    ) -> (r: Result<String, Error>)
        requires
            old(self).wf(),
        ensures
            final(self).wf(),
            final(self).grows_from(old(self)),
            r is Ok,
            final(self).states.state_map().contains_key(r->Ok_0@),
            final(self).actions@.len() == old(self).actions@.len() + 1,
            final(self).actions@.drop_last() == old(self).actions@,
            action_target(final(self).actions@.last()) == Some(r->Ok_0@),
            shows_only_planned(
                old(self).states.state_map(),
                final(self).states.state_map(),
                final(self).actions@,
                old(self).actions@.len() as int,
            ),
            force_new_window ==> created_folder(final(self).actions@.last()) == crate::windows::window::opt_view(folder_to_open),
            created_folder(final(self).actions@.last()) is Some ==> created_folder(final(self).actions@.last())
                == crate::windows::window::opt_view(folder_to_open),
            carried_files(final(self).actions@.last()) == match files_to_open {
                Some(f) => f.files_to_open_or_create@,
                None => Seq::<String>::empty(),
            },
            backup_registered(&old(self).backups, &final(self).backups, folder_to_open, None, r->Ok_0@),
            old(self).states.windows().len() == 0 && window_to_use is None && folder_to_open is Some
                ==> creates_one_folder_window(old(self).actions@, final(self).actions@, r->Ok_0@, folder_to_open->0@),
    {
        let files = match files_to_open {
            Some(f) => f,
            None => FilesToOpen::default(),
        };
        let mut options = base_options(configuration, force_new_window, files);
        options.folder = folder_to_open;
        options.window_to_use = window_to_use;
        proof {
            if old(self).states.windows().len() == 0 {
                assert(!exists|i: int| is_last_active(old(self).states.windows(), i));
            }
        }
        self.open_in_webview_window(options)
    }

    /// Opens an empty window, in the request's context window unless a new
    /// one is forced, optionally restoring an empty workspace's backup.
    fn open_in_empty_window(
        &mut self,
        configuration: &OpenConfiguration,
        force_new_window: bool,
        files_to_open: FilesToOpen,
        empty_window_backup_info: Option<EmptyWindowBackupInfo>,
    ) -> (r: Result<String, Error>)
        requires
            old(self).wf(),
        ensures
            final(self).wf(),
            final(self).grows_from(old(self)),
            r is Ok,
            final(self).states.state_map().contains_key(r->Ok_0@),
            final(self).actions@.len() == old(self).actions@.len() + 1,
            final(self).actions@.drop_last() == old(self).actions@,
            action_target(final(self).actions@.last()) == Some(r->Ok_0@),
            shows_only_planned(
                old(self).states.state_map(),
                final(self).states.state_map(),
                final(self).actions@,
                old(self).actions@.len() as int,
            ),
            created_folder(final(self).actions@.last()) is None,
            carried_files(final(self).actions@.last()) == files_to_open.files_to_open_or_create@,
            force_new_window && empty_window_backup_info is Some && empty_window_backup_info->0.backup_folder is Some
                ==> creates_staged_at(
                final(self).actions@.last(),
                crate::text::joined(old(self).backups.backup_path@, empty_window_backup_info->0.backup_folder->0@),
            ),
    {
        let mut options = base_options(configuration, force_new_window, files_to_open);
        options.window_to_use = clone_opt(&configuration.context_window_label);
        options.empty_window_backup_info = empty_window_backup_info;
        self.open_in_webview_window(options)
    }

    /// Carries out one open request, step by step:
    /// 1. folders to add go to the last active window (not on initial startup);
    /// 2. without folders or empty windows to restore, the files go to a window
    ///    that hosts them (when files do not open in a new window), or to the
    ///    last active one; a window showing a single folder has that folder
    ///    opened instead (step 3 then hands it the files); with no such
    ///    window, the files open in a new one;
    /// 3. the window showing the first requested folder that is already shown
    ///    gets the files; each other requested folder, unless shown before the
    ///    request or asked for earlier in the list, opens in a window, a new
    ///    one for every folder after the first;
    /// 4. each empty window backup to restore, unless an earlier entry restores
    ///    the same workspace, opens in a new window;
    /// 5. if nothing was opened yet, or files are left, empty windows open
    ///    (at least one when files are left).
    /// Every pending file is handed over by exactly one action. Returns the
    /// last window that was opened or given files; some window always is.
    pub fn open(
        &mut self,
        configuration: &OpenConfiguration,
        folders_to_open: Vec<PathToOpen>,
        empty_to_restore: Vec<EmptyWindowBackupInfo>,
        empty_to_open: u8,
        files_to_open: FilesToOpen,
        folders_to_add: Vec<PathToOpen>,
    ) -> (r: Result<String, Error>)
        requires
            old(self).wf(),
        ensures
            final(self).wf(),
            final(self).grows_from(old(self)),
            r is Ok,
            final(self).states.state_map().contains_key(r->Ok_0@),
            final(self).actions@.len() > old(self).actions@.len(),
            action_target(final(self).actions@.last()) == Some(r->Ok_0@),
            folders_to_open@.len() > 0 && (exists|j: int|
                0 <= j < folders_to_open@.len() && (#[trigger] folders_to_open@[j]).folder is Some && map_shows(
                    old(self).states.state_map(),
                    folders_to_open@[j].folder->0@,
                )) ==> gives_files(
                final(self).actions@,
                old(self).actions@.len() as int,
                files_to_open.files_to_open_or_create@,
                old(self).states.state_map(),
                folders_to_open@,
            ),
            created_requested(
                final(self).actions@,
                old(self).actions@.len() as int,
                folders_to_open@,
                old(self).states.state_map(),
                folders_to_open@.len() as int,
            ),
            creates_once(final(self).actions@, old(self).actions@.len() as int),
            forall|j: int|
                0 <= j < folders_to_open@.len() && opens_at(folders_to_open@, old(self).states.state_map(), j)
                    && (#[trigger] folders_to_open@[j]).folder is Some && (exists|j2: int|
                    0 <= j2 < j && opens_at(folders_to_open@, old(self).states.state_map(), j2)) ==> creates_for(
                    final(self).actions@,
                    old(self).actions@.len() as int,
                    folders_to_open@[j].folder->0@,
                ),
            files_to_open.files_to_open_or_create@.len() > 0 ==> one_carrier(
                final(self).actions@,
                old(self).actions@.len() as int,
                files_to_open.files_to_open_or_create@,
            ),
            files_to_open.files_to_open_or_create@.len() == 0 ==> no_carrier(
                final(self).actions@,
                old(self).actions@.len() as int,
            ),
            forall|j: int| 0 <= j < empty_to_restore@.len() && (#[trigger] empty_to_restore@[j]).backup_folder is Some
                ==> creates_staged(
                final(self).actions@,
                old(self).actions@.len() as int,
                crate::text::joined(old(self).backups.backup_path@, empty_to_restore@[j].backup_folder->0@),
            ),
            folder_in_new_window(old(self).settings, *configuration) ==> forall|j: int|
                0 <= j < folders_to_open@.len() && (#[trigger] folders_to_open@[j]).folder is Some && !map_shows(
                    old(self).states.state_map(),
                    folders_to_open@[j].folder->0@,
                ) ==> creates_for(final(self).actions@, old(self).actions@.len() as int, folders_to_open@[j].folder->0@),
            ({
                let adds = !configuration.initial_startup && folders_to_add@.len() > 0
                    && old(self).states.windows().len() > 0;
                &&& adds ==> match final(self).actions@[old(self).actions@.len() as int] {
                    WindowAction::AddFolders(w, p) => Some(w) == last_active_label(old(self).states.windows())
                        && p.folders_to_add@ == folders_to_add@,
                    _ => false,
                }
                &&& forall|k: int|
                    old(self).actions@.len() <= k < final(self).actions@.len()
                        && #[trigger] is_add_folders(final(self).actions@[k]) ==> adds && k == old(self).actions@.len()
            }),
            folders_to_open@.len() == 0 && empty_to_restore@.len() == 0
                && files_to_open.files_to_open_or_create@.len() == 0 && folders_to_add@.len() == 0
                ==> creates_one_empty_window(old(self).actions@, final(self).actions@, r->Ok_0@),
            old(self).states.windows().len() == 0 && folders_to_open@.len() == 1 && folders_to_open@[0].folder is Some
                && empty_to_restore@.len() == 0 && files_to_open.files_to_open_or_create@.len() == 0
                && folders_to_add@.len() == 0 ==> {
                &&& creates_one_folder_window(
                    old(self).actions@,
                    final(self).actions@,
                    r->Ok_0@,
                    folders_to_open@[0].folder->0@,
                )
                &&& crate::windows::window::has_backup(
                    final(self).backups.folders_view(),
                    folders_to_open@[0].folder->0@,
                )
                &&& final(self).backups.folders_view() == crate::windows::window::with_backup(
                    old(self).backups.folders_view(),
                    folders_to_open@[0].folder->0@,
                    r->Ok_0@,
                )
            },
            folders_to_open@.len() == 0 && empty_to_restore@.len() == 0
                && files_to_open.files_to_open_or_create@.len() == 1 && folders_to_add@.len() == 0
                && routes_to_host(
                old(self).states,
                old(self).settings,
                *configuration,
                files_to_open.files_to_open_or_create@[0]@,
            ) ==> {
                &&& sends_file_to(
                    old(self).actions@,
                    final(self).actions@,
                    r->Ok_0@,
                    files_to_open.files_to_open_or_create@[0]@,
                )
                &&& final(self).states == old(self).states
                &&& hosts_file(final(self).states.state_map()[r->Ok_0@], files_to_open.files_to_open_or_create@[0]@)
            },
    {
        let ghost input_folders = folders_to_open@;
        let ghost input_files = files_to_open.files_to_open_or_create@;
        let ghost shown = input_folders.len() > 0 && (exists|j: int|
            0 <= j < input_folders.len() && (#[trigger] input_folders[j]).folder is Some && map_shows(
                old(self).states.state_map(),
                input_folders[j].folder->0@,
            ));
        let ghost in_new = folder_in_new_window(old(self).settings, *configuration);
        let ghost file0: Seq<char> = if files_to_open.files_to_open_or_create@.len() > 0 {
            files_to_open.files_to_open_or_create@[0]@
        } else {
            Seq::empty()
        };
        let ghost route = folders_to_open@.len() == 0 && empty_to_restore@.len() == 0
            && files_to_open.files_to_open_or_create@.len() == 1 && folders_to_add@.len() == 0
            && routes_to_host(old(self).states, old(self).settings, *configuration, file0);
        let ghost single = old(self).states.windows().len() == 0 && folders_to_open@.len() == 1
            && folders_to_open@[0].folder is Some && empty_to_restore@.len() == 0
            && files_to_open.files_to_open_or_create@.len() == 0 && folders_to_add@.len() == 0;
        let ghost the_folder = if folders_to_open@.len() > 0 {
            folders_to_open@[0].folder
        } else {
            None
        };
        let ghost plain = folders_to_open@.len() == 0 && empty_to_restore@.len() == 0
            && files_to_open.files_to_open_or_create@.len() == 0 && folders_to_add@.len() == 0;
        let mut folders_to_open = folders_to_open;
        let mut files_to_open = files_to_open;
        let mut empty_to_open = empty_to_open;
        let mut any_used = false;
        let mut files_opened_in_window: Option<String> = None;
        proof {
            lemma_grows_refl(self);
        }

        let options = should_open_new_window(&self.settings, configuration);
        let mut open_folder_in_new_window = options.open_folder_in_new_window;
        let open_files_in_new_window = options.open_files_in_new_window;

        // Folders to add go to the last active window.
        if !configuration.initial_startup && folders_to_add.len() > 0 {
            if let Some(active_window) = last_active_window(&self.states) {
                let _ = self.add_folders_to_existing_window(&active_window, &folders_to_add);
                any_used = true;
                proof {
                    lemma_grows_push(old(self), self);
                    assert(self.actions@[old(self).actions@.len() as int] == self.actions@.last());
                }
            }
        }
        let ghost after1 = self.actions@;
        proof {
            assert forall|k: int| old(self).actions@.len() <= k < self.actions@.len()
                implies (#[trigger] carried_files(self.actions@[k])).len() == 0 by {
                assert(self.actions@[k] is AddFolders);
            }
            assert(files_accounted(self.actions@, old(self).actions@.len() as int, input_files, files_to_open.files_to_open_or_create@));
            assert forall|k: int| old(self).actions@.len() <= k < self.actions@.len()
                implies (#[trigger] created_folder(self.actions@[k])) is None by {
                assert(self.actions@[k] is AddFolders);
            }
            assert(created_requested(self.actions@, old(self).actions@.len() as int, input_folders, old(self).states.state_map(), 0));
            assert(creates_once(self.actions@, old(self).actions@.len() as int));
            lemma_shows_unchanged(old(self).states.state_map(), self.actions@, old(self).actions@.len() as int);
            assert(after1.subrange(0, after1.len() as int) =~= after1);
            assert(after1.subrange(0, old(self).actions@.len() as int) =~= old(self).actions@);
        }

        // Files, when no folder and no empty window is to be opened.
        if folders_to_open.len() == 0 && empty_to_restore.len() == 0 {
            let file_to_check: Option<String> = if files_to_open.files_to_open_or_create.len() == 0 {
                None
            } else {
                Some(files_to_open.files_to_open_or_create[0].clone())
            };
            let mut window_to_use_for_files: Option<String> = None;
            if file_to_check.is_some() && !open_files_in_new_window {
                if configuration.context == OpenContext::Desktop || configuration.context == OpenContext::Cli
                    || configuration.context == OpenContext::Dock {
                    match &file_to_check {
                        Some(f) => {
                            window_to_use_for_files = find_window_on_file(&self.states, f);
                        },
                        None => {},
                    }
                }
                if window_to_use_for_files.is_none() {
                    window_to_use_for_files = last_active_window(&self.states);
                }
            }
            proof {
                if route {
                    assert(file_to_check is Some && file_to_check->0@ == file0);
                    assert(window_to_use_for_files is Some);
                }
                if window_to_use_for_files is Some {
                    let s = self.states.windows();
                    let i = if exists|i: int| 0 <= i < s.len() && s[i].0 == window_to_use_for_files->0 {
                        choose|i: int| 0 <= i < s.len() && s[i].0 == window_to_use_for_files->0
                    } else {
                        choose|i: int| is_last_active(s, i)
                    };
                    crate::windows::window::lemma_label_index(s, i);
                }
            }
            match window_to_use_for_files {
                Some(window_to_use) => {
                    match self.states.get_item(window_to_use.as_str()) {
                        Some(window_state) => {
                            proof {
                                if route {
                                    let s = self.states.windows();
                                    let k = choose|k: int| 0 <= k < s.len() && s[k].0 == window_to_use_for_files->0
                                        && hosts_file(s[k].1, file0) && forall|j: int|
                                        0 <= j < k ==> !hosts_file(#[trigger] s[j].1, file0);
                                    crate::windows::window::lemma_label_index(s, k);
                                    assert(window_state.folder == s[k].1.folder);
                                    assert(shows_folder(s[k].1, window_state.folder->0@));
                                    assert(hosted_by_folder(s, window_state.folder->0@, file0));
                                }
                            }
                            if window_state.folder.is_some() {
                                // The window shows a single folder: open that folder.
                                proof {
                                    let m = self.states.state_map();
                                    assert(m.contains_key(window_to_use@));
                                    assert(shows_folder(m[window_to_use@], window_state.folder->0@));
                                    assert(map_shows(m, window_state.folder->0@));
                                }
                                let mut folder = PathToOpen::default();
                                folder.folder = window_state.folder;
                                folder.path_type = FileType::Directory;
                                folder.exists = true;
                                folders_to_open.push(folder);
                            } else {
                                let ghost before = *self;
                                let _ = self.open_files_in_existing_window(&window_to_use, &files_to_open);
                                proof {
                                    lemma_grows_push(&before, self);
                                    lemma_open_step(
                            old(self),
                            &before,
                            self,
                            after1,
                            crate::windows::window::opt_view(files_opened_in_window),
                            input_files,
                            input_folders,
                            files_to_open.files_to_open_or_create@,
                            input_folders,
                            0,
                        );
                                }
                                files_opened_in_window = Some(window_to_use);
                                any_used = true;
                                let _ = empty_files_to_open(&mut files_to_open);
                            }
                        },
                        None => {},
                    }
                },
                None => {
                    let ghost before = *self;
                    let options = base_options(configuration, true, files_to_open.clone());
                    let res = self.open_in_webview_window(options);
                    proof {
                        lemma_open_step(
                            old(self),
                            &before,
                            self,
                            after1,
                            crate::windows::window::opt_view(files_opened_in_window),
                            input_files,
                            input_folders,
                            files_to_open.files_to_open_or_create@,
                            input_folders,
                            0,
                        );
                    }
                    match res {
                        Ok(w) => {
                            files_opened_in_window = Some(w);
                            any_used = true;
                            let _ = empty_files_to_open(&mut files_to_open);
                        },
                        Err(e) => {
                            return Err(e);
                        },
                    }
                },
            }
        }
        assert(files_opened_in_window is Some || folders_to_open@.len() > 0 || empty_to_restore@.len() > 0);
        assert(files_opened_in_window is Some ==> self.states.state_map().contains_key(files_opened_in_window->0@));
        assert(plain ==> folders_to_open@.len() == 0 && any_used && files_opened_in_window is Some
            && files_to_open.files_to_open_or_create@.len() == 0
            && creates_one_empty_window(old(self).actions@, self.actions@, files_opened_in_window->0@));
        let ghost after_files = self.actions@;
        assert(shown ==> folders_to_open@ == input_folders && files_to_open.files_to_open_or_create@ == input_files
            && self.states == old(self).states);
        assert(route ==> self.actions@ == old(self).actions@ && self.states == old(self).states
            && folders_to_open@.len() == 1 && folders_to_open@[0].folder is Some && hosted_by_folder(
            self.states.windows(),
            folders_to_open@[0].folder->0@,
            file0,
        ) && files_opened_in_window is None && !any_used && files_to_open.files_to_open_or_create@.len() == 1
            && files_to_open.files_to_open_or_create@[0]@ == file0 && empty_to_restore@.len() == 0);
        assert(single ==> self.actions@ == old(self).actions@ && self.states == old(self).states
            && folders_to_open@.len() == 1 && folders_to_open@[0].folder == the_folder
            && files_to_open.files_to_open_or_create@.len() == 0 && self.backups == old(self).backups);

        // Folders.
        assert(folders_to_open@.len() > 0 ==> self.states == old(self).states);
        assert(input_folders.len() > 0 ==> folders_to_open@ == input_folders);
        assert(input_folders.len() == 0 && folders_to_open@.len() > 0 ==> folders_to_open@.len() == 1
            && folders_to_open@[0].folder is Some && map_shows(old(self).states.state_map(), folders_to_open@[0].folder->0@));
        assert(created_requested(self.actions@, old(self).actions@.len() as int, input_folders, old(self).states.state_map(), 0));
        assert(creates_once(self.actions@, old(self).actions@.len() as int));
        if folders_to_open.len() > 0 {
            let ghost states3 = self.states;
            let ghost before3 = *self;
            let mut existing: Option<String> = None;
            let mut shown_before: Vec<bool> = Vec::new();
            let mut i: usize = 0;
            while i < folders_to_open.len()
                invariant
                    self.states == states3,
                    self.wf(),
                    self.actions == before3.actions,
                    shows_only_planned(
                        old(self).states.state_map(),
                        self.states.state_map(),
                        self.actions@,
                        old(self).actions@.len() as int,
                    ),
                    files_accounted(self.actions@, old(self).actions@.len() as int, input_files, files_to_open.files_to_open_or_create@),
                    after1.len() >= old(self).actions@.len(),
                    planned_after(self.actions@, after1, crate::windows::window::opt_view(files_opened_in_window)),
                    i <= folders_to_open@.len(),
                    existing is Some ==> self.states.state_map().contains_key(existing->0@),
                    existing is None ==> forall|j: int| 0 <= j < i ==> no_window_shows(
                        states3.windows(),
                        #[trigger] folders_to_open@[j].folder,
                    ),
                    single ==> existing is None && states3.windows().len() == 0,
                    route ==> folders_to_open@.len() == 1 && folders_to_open@[0].folder is Some && hosted_by_folder(
                        states3.windows(),
                        folders_to_open@[0].folder->0@,
                        file0,
                    ),
                    existing is Some ==> self.states.state_map().contains_key(existing->0@) && first_shown_by(
                        self.states.state_map()[existing->0@],
                        folders_to_open@,
                        old(self).states.state_map(),
                    ),
                    states3 == old(self).states,
                    shown_before@.len() == i,
                    forall|j: int| 0 <= j < i ==> #[trigger] shown_before@[j] == (folders_to_open@[j].folder is Some
                        && map_shows(old(self).states.state_map(), folders_to_open@[j].folder->0@)),
                    route && i == 0 ==> existing is None,
                    route && i == 1 ==> existing is Some && exists|k: int|
                        0 <= k < states3.windows().len() && states3.windows()[k].0 == existing->0 && hosts_file(
                            #[trigger] states3.windows()[k].1,
                            file0,
                        ),
                decreases folders_to_open@.len() - i,
            {
                let found = find_window_on_folder(&self.states, folders_to_open[i].folder.as_ref());
                shown_before.push(found.is_some());
                proof {
                    if folders_to_open@[i as int].folder is Some {
                        lemma_seq_map_shows(states3.windows(), folders_to_open@[i as int].folder->0@);
                    }
                    assert(shown_before@[i as int] == (folders_to_open@[i as int].folder is Some && map_shows(
                        old(self).states.state_map(),
                        folders_to_open@[i as int].folder->0@,
                    )));
                }
                if existing.is_none() {
                    existing = found;
                    proof {
                        if existing is Some {
                            assert forall|j2: int| 0 <= j2 < i && (#[trigger] folders_to_open@[j2]).folder is Some
                                implies !map_shows(old(self).states.state_map(), folders_to_open@[j2].folder->0@) by {
                                assert(no_window_shows(states3.windows(), folders_to_open@[j2].folder));
                                lemma_seq_map_shows(states3.windows(), folders_to_open@[j2].folder->0@);
                            }
                            let s = self.states.windows();
                            let k = choose|k: int| 0 <= k < s.len() && s[k].0 == existing->0 && shows_folder(
                                s[k].1,
                                folders_to_open@[i as int].folder->0@,
                            ) && forall|j: int| 0 <= j < k ==> !shows_folder(#[trigger] s[j].1, folders_to_open@[i as int].folder->0@);
                            crate::windows::window::lemma_label_index(s, k);
                            assert(first_shown_by(s[k].1, folders_to_open@, old(self).states.state_map()));
                            assert(hosts_file(s[k].1, file0) || !route);
                        }
                        if route {
                            assert(existing is Some);
                        }
                    }
                }
                i = i + 1;
            }
            proof {
                if shown {
                    let j = choose|j: int|
                        0 <= j < input_folders.len() && (#[trigger] input_folders[j]).folder is Some && map_shows(
                            old(self).states.state_map(),
                            input_folders[j].folder->0@,
                        );
                    let f = input_folders[j].folder->0@;
                    let m = old(self).states.state_map();
                    let l = choose|l: Seq<char>| m.contains_key(l) && shows_folder(#[trigger] m[l], f);
                    let s = states3.windows();
                    assert(has_label(s, l));
                    let idx = choose|idx: int| 0 <= idx < s.len() && #[trigger] s[idx].0@ == l;
                    crate::windows::window::lemma_label_index(s, idx);
                    assert(!no_window_shows(s, folders_to_open@[j].folder));
                }
            }
            if let Some(window_on_folder) = existing {
                let ghost before = *self;
                let _ = self.open_files_in_existing_window(&window_on_folder, &files_to_open);
                proof {
                    lemma_grows_push(&before, self);
                    lemma_open_step(
                            old(self),
                            &before,
                            self,
                            after1,
                            crate::windows::window::opt_view(files_opened_in_window),
                            input_files,
                            input_folders,
                            files_to_open.files_to_open_or_create@,
                            input_folders,
                            0,
                        );
                }
                files_opened_in_window = Some(window_on_folder);
                any_used = true;
                let _ = empty_files_to_open(&mut files_to_open);
                open_folder_in_new_window = true;
            }
            let ghost after_existing = self.actions@;
            proof {
                if shown {
                    let last = self.actions@.len() - 1;
                    assert(self.actions@[last] == self.actions@.last());
                    assert(sends_files_to_folder_window(self.actions@[last], input_files, old(self).states.state_map(), input_folders));
                    assert(gives_files(self.actions@, old(self).actions@.len() as int, input_files, old(self).states.state_map(), input_folders));
                }
            }
            let ghost route_target = files_opened_in_window;
            assert(route ==> route_target is Some && sends_file_to(old(self).actions@, self.actions@, route_target->0@, file0)
                && self.states == old(self).states && hosts_file(self.states.state_map()[route_target->0@], file0));
            let mut i: usize = 0;
            while i < folders_to_open.len()
                invariant
                    shows_only_planned(
                        old(self).states.state_map(),
                        self.states.state_map(),
                        self.actions@,
                        old(self).actions@.len() as int,
                    ),
                    in_new ==> open_folder_in_new_window,
                    states3 == old(self).states,
                    states3.wf(),
                    shown_before@.len() == folders_to_open@.len(),
                    forall|j: int| 0 <= j < folders_to_open@.len() ==> #[trigger] shown_before@[j] == (
                    folders_to_open@[j].folder is Some && map_shows(old(self).states.state_map(), folders_to_open@[j].folder->0@)),
                    created_requested(self.actions@, old(self).actions@.len() as int, folders_to_open@, old(self).states.state_map(), i as int),
                    creates_once(self.actions@, old(self).actions@.len() as int),
                    (exists|j: int| 0 <= j < i && opens_at(folders_to_open@, old(self).states.state_map(), j)) ==> open_folder_in_new_window,
                    forall|j: int|
                        0 <= j < i && opens_at(folders_to_open@, old(self).states.state_map(), j) && (#[trigger] folders_to_open@[j]).folder is Some
                            && (exists|j2: int| 0 <= j2 < j && opens_at(folders_to_open@, old(self).states.state_map(), j2)) ==> creates_for(
                            self.actions@,
                            old(self).actions@.len() as int,
                            folders_to_open@[j].folder->0@,
                        ),
                    shown ==> gives_files(self.actions@, old(self).actions@.len() as int, input_files, old(self).states.state_map(), input_folders),
                    in_new == folder_in_new_window(old(self).settings, *configuration),
                    input_folders.len() > 0 ==> folders_to_open@ == input_folders,
                    in_new ==> forall|j: int|
                        0 <= j < i && (#[trigger] folders_to_open@[j]).folder is Some && !map_shows(
                            old(self).states.state_map(),
                            folders_to_open@[j].folder->0@,
                        ) ==> creates_for(self.actions@, old(self).actions@.len() as int, folders_to_open@[j].folder->0@),
                    route ==> files_opened_in_window == route_target && self.actions@ == after_existing
                        && self.states == states3 && states3 == old(self).states && any_used
                        && files_to_open.files_to_open_or_create@.len() == 0 && folders_to_open@.len() == 1
                        && folders_to_open@[0].folder is Some && hosted_by_folder(
                        states3.windows(),
                        folders_to_open@[0].folder->0@,
                        file0,
                    ),
                    self.wf(),
                    self.grows_from(old(self)),
                    files_accounted(self.actions@, old(self).actions@.len() as int, input_files, files_to_open.files_to_open_or_create@),
                    after1.len() >= old(self).actions@.len(),
                    planned_after(self.actions@, after1, crate::windows::window::opt_view(files_opened_in_window)),
                    i <= folders_to_open@.len(),
                    files_opened_in_window is Some ==> self.states.state_map().contains_key(
                        files_opened_in_window->0@,
                    ),
                    files_opened_in_window is None ==> self.states == states3,
                    files_opened_in_window is None ==> forall|j: int|
                        0 <= j < folders_to_open@.len() ==> no_window_shows(
                            states3.windows(),
                            #[trigger] folders_to_open@[j].folder,
                        ),
                    i > 0 ==> files_opened_in_window is Some,
                    single ==> folders_to_open@.len() == 1 && folders_to_open@[0].folder == the_folder
                        && the_folder is Some && old(self).states.windows().len() == 0,
                    single && i == 0 ==> self.actions@ == old(self).actions@ && self.states == old(self).states
                        && self.backups == old(self).backups,
                    single && i == 1 ==> creates_one_folder_window(
                        old(self).actions@,
                        self.actions@,
                        files_opened_in_window->0@,
                        the_folder->0@,
                    ) && crate::windows::window::has_backup(self.backups.folders_view(), the_folder->0@)
                        && self.backups.folders_view() == crate::windows::window::with_backup(
                        old(self).backups.folders_view(),
                        the_folder->0@,
                        files_opened_in_window->0@,
                    ),
                    single && i == 1 ==> any_used && files_to_open.files_to_open_or_create@.len() == 0,
                decreases folders_to_open@.len() - i,
            {
                let repeat = appears_before(&folders_to_open, i);
                proof {
                    if folders_to_open@[i as int].folder is Some {
                        lemma_seq_map_shows(states3.windows(), folders_to_open@[i as int].folder->0@);
                    }
                }
                if !shown_before[i] && !repeat {
                    let ghost before = *self;
                    let res = self.open_folder_in_window(
                        configuration,
                        clone_opt(&folders_to_open[i].folder),
                        open_folder_in_new_window,
                        Some(files_to_open.clone()),
                        None,
                    );
                    proof {
                        lemma_open_step(
                            old(self),
                            &before,
                            self,
                            after1,
                            crate::windows::window::opt_view(files_opened_in_window),
                            input_files,
                            input_folders,
                            files_to_open.files_to_open_or_create@,
                            folders_to_open@,
                            i as int,
                        );
                        if single && i == 0 {
                            let v = before.backups.folders_view();
                            let f = the_folder->0@;
                            if !crate::windows::window::has_backup(v, f) {
                                let w = crate::windows::window::with_backup(v, f, res->Ok_0@);
                                assert(w[v.len() as int].1 == Some(f));
                            }
                        }
                    }
                    proof {
                        assert(opens_at(folders_to_open@, old(self).states.state_map(), i as int));
                        lemma_created_step(
                            before.actions@,
                            self.actions@,
                            old(self).actions@.len() as int,
                            folders_to_open@,
                            old(self).states.state_map(),
                            i as int,
                        );
                        if open_folder_in_new_window && folders_to_open@[i as int].folder is Some {
                            let f = folders_to_open@[i as int].folder->0@;
                            let last = self.actions@.len() - 1;
                            assert(self.actions@[last] == self.actions@.last());
                            assert(created_folder(self.actions@[last]) == Some(f));
                            assert(creates_for(self.actions@, old(self).actions@.len() as int, f));
                        }
                    }
                    match res {
                        Ok(w) => {
                            files_opened_in_window = Some(w);
                            any_used = true;
                            let _ = empty_files_to_open(&mut files_to_open);
                            open_folder_in_new_window = true;
                        },
                        Err(e) => {
                            return Err(e);
                        },
                    }
                } else {
                    proof {
                        assert(!opens_at(folders_to_open@, old(self).states.state_map(), i as int));
                        if repeat {
                            let f = folders_to_open@[i as int].folder->0@;
                            let j = choose|j: int| 0 <= j < i && (#[trigger] folders_to_open@[j]).folder is Some
                                && folders_to_open@[j].folder->0@ == f;
                        }
                        assert(created_requested(self.actions@, old(self).actions@.len() as int, folders_to_open@, old(self).states.state_map(), i as int + 1));
                    }
                }
                i = i + 1;
            }
        }
        proof {
            if input_folders.len() == 0 {
                assert forall|k: int| old(self).actions@.len() <= k < self.actions@.len()
                    implies (#[trigger] created_folder(self.actions@[k])) is None by {
                    if created_folder(self.actions@[k]) is Some {
                        assert(folders_to_open@.len() > 0);
                        assert(!opens_at(folders_to_open@, old(self).states.state_map(), 0));
                    }
                }
            }
        }
        assert(created_requested(self.actions@, old(self).actions@.len() as int, input_folders, old(self).states.state_map(), input_folders.len() as int));
        assert(forall|j: int|
            0 <= j < input_folders.len() && opens_at(input_folders, old(self).states.state_map(), j) && (#[trigger] input_folders[j]).folder is Some
                && (exists|j2: int| 0 <= j2 < j && opens_at(input_folders, old(self).states.state_map(), j2)) ==> creates_for(
                self.actions@,
                old(self).actions@.len() as int,
                input_folders[j].folder->0@,
            ));
        assert(files_opened_in_window is Some || empty_to_restore@.len() > 0);
        let ghost after_folders = self.actions@;

        // Empty windows with backups.
        let mut i: usize = 0;
        while i < empty_to_restore.len()
            invariant
                self.wf(),
                self.grows_from(old(self)),
                    files_accounted(self.actions@, old(self).actions@.len() as int, input_files, files_to_open.files_to_open_or_create@),
                    after1.len() >= old(self).actions@.len(),
                    planned_after(self.actions@, after1, crate::windows::window::opt_view(files_opened_in_window)),
                i <= empty_to_restore@.len(),
                created_requested(self.actions@, old(self).actions@.len() as int, input_folders, old(self).states.state_map(), input_folders.len() as int),
                creates_once(self.actions@, old(self).actions@.len() as int),
                forall|j: int|
                    0 <= j < input_folders.len() && opens_at(input_folders, old(self).states.state_map(), j) && (#[trigger] input_folders[j]).folder is Some
                        && (exists|j2: int| 0 <= j2 < j && opens_at(input_folders, old(self).states.state_map(), j2)) ==> creates_for(
                        self.actions@,
                        old(self).actions@.len() as int,
                        input_folders[j].folder->0@,
                    ),
                
                forall|j: int| 0 <= j < i && (#[trigger] empty_to_restore@[j]).backup_folder is Some ==> creates_staged(
                    self.actions@,
                    old(self).actions@.len() as int,
                    crate::text::joined(old(self).backups.backup_path@, empty_to_restore@[j].backup_folder->0@),
                ),
                shown ==> gives_files(self.actions@, old(self).actions@.len() as int, input_files, old(self).states.state_map(), input_folders),
                shows_only_planned(
                    old(self).states.state_map(),
                    self.states.state_map(),
                    self.actions@,
                    old(self).actions@.len() as int,
                ),
                in_new ==> forall|j: int|
                    0 <= j < input_folders.len() && (#[trigger] input_folders[j]).folder is Some && !map_shows(
                        old(self).states.state_map(),
                        input_folders[j].folder->0@,
                    ) ==> creates_for(self.actions@, old(self).actions@.len() as int, input_folders[j].folder->0@),
                files_opened_in_window is Some ==> self.states.state_map().contains_key(files_opened_in_window->0@),
                files_opened_in_window is Some || empty_to_restore@.len() > 0,
                i > 0 ==> files_opened_in_window is Some,
                single ==> empty_to_restore@.len() == 0 && self.actions@ == after_folders && any_used
                    && files_to_open.files_to_open_or_create@.len() == 0 && creates_one_folder_window(
                    old(self).actions@,
                    self.actions@,
                    files_opened_in_window->0@,
                    the_folder->0@,
                ) && crate::windows::window::has_backup(self.backups.folders_view(), the_folder->0@)
                        && self.backups.folders_view() == crate::windows::window::with_backup(
                        old(self).backups.folders_view(),
                        the_folder->0@,
                        files_opened_in_window->0@,
                    ),
                route ==> empty_to_restore@.len() == 0 && self.actions@ == after_folders && any_used
                    && files_to_open.files_to_open_or_create@.len() == 0 && self.states == old(self).states
                    && sends_file_to(old(self).actions@, self.actions@, files_opened_in_window->0@, file0)
                    && hosts_file(self.states.state_map()[files_opened_in_window->0@], file0),
                plain ==> empty_to_restore@.len() == 0 && self.actions@ == after_files && any_used
                    && files_to_open.files_to_open_or_create@.len() == 0
                    && creates_one_empty_window(old(self).actions@, self.actions@, files_opened_in_window->0@),
            decreases empty_to_restore@.len() - i,
        {
            if !restored_before(&empty_to_restore, i) {
                let ghost before = *self;
                let res = self.open_in_empty_window(
                    configuration,
                    true,
                    files_to_open.clone(),
                    Some(empty_to_restore[i].clone()),
                );
                proof {
                    if empty_to_restore@[i as int].backup_folder is Some {
                        let last = self.actions@.len() - 1;
                        assert(self.actions@[last] == self.actions@.last());
                        assert(creates_staged(
                            self.actions@,
                            old(self).actions@.len() as int,
                            crate::text::joined(old(self).backups.backup_path@, empty_to_restore@[i as int].backup_folder->0@),
                        ));
                    }
                }
                proof {
                    lemma_open_step(
                                old(self),
                                &before,
                                self,
                                after1,
                                crate::windows::window::opt_view(files_opened_in_window),
                                input_files,
                                input_folders,
                                files_to_open.files_to_open_or_create@,
                                input_folders,
                                input_folders.len() as int,
                            );
                }
                match res {
                    Ok(w) => {
                        files_opened_in_window = Some(w);
                        any_used = true;
                        let _ = empty_files_to_open(&mut files_to_open);
                        open_folder_in_new_window = true;
                    },
                    Err(e) => {
                        return Err(e);
                    },
                }
            } else {
                proof {
                    let j = choose|j: int| 0 <= j < i && (#[trigger] empty_to_restore@[j]).backup_folder is Some
                        && empty_to_restore@[j].backup_folder->0@ == empty_to_restore@[i as int].backup_folder->0@;
                }
            }
            i = i + 1;
        }
        assert(files_opened_in_window is Some);

        // Empty windows, when nothing was opened or files are left.
        if !any_used || !is_empty_files_to_open(&files_to_open) {
            if !is_empty_files_to_open(&files_to_open) && empty_to_open == 0 {
                empty_to_open = 1;
            }
            let mut n: u8 = 0;
            let ghost pending = files_to_open.files_to_open_or_create@.len() > 0;
            assert(pending ==> empty_to_open >= 1);
            while n < empty_to_open
                invariant
                    n > 0 ==> files_to_open.files_to_open_or_create@.len() == 0,
                    created_requested(self.actions@, old(self).actions@.len() as int, input_folders, old(self).states.state_map(), input_folders.len() as int),
                creates_once(self.actions@, old(self).actions@.len() as int),
                forall|j: int|
                    0 <= j < input_folders.len() && opens_at(input_folders, old(self).states.state_map(), j) && (#[trigger] input_folders[j]).folder is Some
                        && (exists|j2: int| 0 <= j2 < j && opens_at(input_folders, old(self).states.state_map(), j2)) ==> creates_for(
                        self.actions@,
                        old(self).actions@.len() as int,
                        input_folders[j].folder->0@,
                    ),
                
                    pending ==> empty_to_open >= 1,
                    !pending ==> files_to_open.files_to_open_or_create@.len() == 0,
                    self.wf(),
                    self.grows_from(old(self)),
                    files_accounted(self.actions@, old(self).actions@.len() as int, input_files, files_to_open.files_to_open_or_create@),
                    after1.len() >= old(self).actions@.len(),
                    planned_after(self.actions@, after1, crate::windows::window::opt_view(files_opened_in_window)),
                    files_opened_in_window is Some,
                    self.states.state_map().contains_key(files_opened_in_window->0@),
                    forall|j: int| 0 <= j < empty_to_restore@.len() && (#[trigger] empty_to_restore@[j]).backup_folder is Some ==> creates_staged(
                    self.actions@,
                    old(self).actions@.len() as int,
                    crate::text::joined(old(self).backups.backup_path@, empty_to_restore@[j].backup_folder->0@),
                ),
                    shown ==> gives_files(self.actions@, old(self).actions@.len() as int, input_files, old(self).states.state_map(), input_folders),
                    shows_only_planned(
                        old(self).states.state_map(),
                        self.states.state_map(),
                        self.actions@,
                        old(self).actions@.len() as int,
                    ),
                    in_new ==> forall|j: int|
                        0 <= j < input_folders.len() && (#[trigger] input_folders[j]).folder is Some && !map_shows(
                            old(self).states.state_map(),
                            input_folders[j].folder->0@,
                        ) ==> creates_for(self.actions@, old(self).actions@.len() as int, input_folders[j].folder->0@),
                decreases empty_to_open - n,
            {
                let ghost before = *self;
                let res = self.open_in_empty_window(configuration, open_folder_in_new_window, files_to_open.clone(), None);
                proof {
                    lemma_open_step(
                            old(self),
                            &before,
                            self,
                            after1,
                            crate::windows::window::opt_view(files_opened_in_window),
                            input_files,
                            input_folders,
                            files_to_open.files_to_open_or_create@,
                            input_folders,
                            input_folders.len() as int,
                        );
                }
                match res {
                    Ok(w) => {
                        files_opened_in_window = Some(w);
                        let _ = empty_files_to_open(&mut files_to_open);
                        open_folder_in_new_window = true;
                    },
                    Err(e) => {
                        return Err(e);
                    },
                }
                n = n + 1;
            }
        }
        assert(files_to_open.files_to_open_or_create@.len() == 0);
        match files_opened_in_window {
            Some(window) => Ok(window),
            None => Err(Error::NoWindowCreated),
        }
    }

    /// The paths to reopen from the last session, as the restore setting
    /// asks: each known window (unless only one is restored), then the
    /// recorded last active window. A window with a folder reopens that
    /// folder; one without reopens its backup, unless only folders are restored.
    pub fn get_paths_from_last_session(&self) -> (r: Vec<PathToOpen>)
        requires
            self.wf(),
        ensures
            r@ == last_session_paths(self.settings, self.states),
    {
        let restore = self.settings.restore_windows;
        let mut paths: Vec<PathToOpen> = Vec::new();
        if restore == RestoreWindows::Nothing {
            return paths;
        }
        if restore != RestoreWindows::One {
            let mut i: usize = 0;
            while i < self.states.storage.opened_windows.len()
                invariant
                    restore == self.settings.restore_windows,
                    i <= self.states.windows().len(),
                    paths@ == restored_entries(self.states.windows().subrange(0, i as int), restore),
                decreases self.states.windows().len() - i,
            {
                let ghost pre = self.states.windows().subrange(0, i as int + 1);
                assert(pre.drop_last() =~= self.states.windows().subrange(0, i as int));
                push_restored(&mut paths, &self.states.storage.opened_windows[i].1, restore);
                i = i + 1;
            }
            assert(self.states.windows().subrange(0, self.states.windows().len() as int) =~= self.states.windows());
        }
        match &self.states.storage.last_active_window {
            Some(last) => {
                match self.states.get_item(last.label.as_str()) {
                    Some(state) => {
                        push_restored(&mut paths, &state, restore);
                    },
                    None => {},
                }
            },
            None => {},
        }
        paths
    }

    /// The paths that a request opens: one empty window when an empty
    /// window is forced; else the request's resources (`kinds[i]` being what
    /// the filesystem reports for the path of resource `i`); else the last
    /// session's paths, or one empty window when there are none. On initial
    /// startup, when the last session was not restored that way, its windows
    /// with a backup are added after the first path.
    pub fn get_paths_to_open(
        &self,
        uris_to_open: &Option<Vec<WindowOpenable>>,
        kinds: &Vec<PathKind>,
        force_empty_window: &bool,
        initial_startup: &bool,
    ) -> (r: Vec<PathToOpen>)
        requires
            self.wf(),
            uris_to_open is Some ==> kinds@.len() == uris_to_open->0@.len(),
        ensures
            r@ == paths_to_open(self.settings, self.states, *uris_to_open, kinds@, *force_empty_window, *initial_startup),
    {
        let mut paths_to_open: Vec<PathToOpen> = Vec::new();
        let mut restored_windows = false;
        if *force_empty_window {
            paths_to_open.push(PathToOpen::default());
        } else {
            match uris_to_open {
                Some(uris) => {
                    if uris.len() > 0 {
                        paths_to_open = extract_paths(uris_to_open, kinds);
                    }
                },
                None => {
                    paths_to_open = self.get_paths_from_last_session();
                    if paths_to_open.len() == 0 {
                        paths_to_open.push(PathToOpen::default());
                    }
                    restored_windows = true;
                },
            }
        }
        if *initial_startup && !restored_windows {
            let previous = self.get_paths_from_last_session();
            let mut with_backup: Vec<PathToOpen> = Vec::new();
            let mut i: usize = 0;
            while i < previous.len()
                invariant
                    i <= previous@.len(),
                    with_backup@ == backed_up(previous@.subrange(0, i as int)),
                decreases previous@.len() - i,
            {
                let ghost pre = previous@.subrange(0, i as int + 1);
                assert(pre.drop_last() =~= previous@.subrange(0, i as int));
                if previous[i].backup_path.is_some() {
                    with_backup.push(previous[i].clone());
                }
                i = i + 1;
            }
            assert(previous@.subrange(0, previous@.len() as int) =~= previous@);
            let at: usize = if paths_to_open.len() == 0 { 0 } else { 1 };
            let mut tail = paths_to_open.split_off(at);
            paths_to_open.append(&mut with_backup);
            paths_to_open.append(&mut tail);
        }
        paths_to_open
    }

    /// Opens what a request asks for (`kinds[i]` being what the filesystem
    /// reports for the path of resource `i`): its folders, files, empty
    /// windows, and on initial startup the empty windows with backups; then
    /// records the opened files and folders in the recents history.
    pub fn open_window(&mut self, configuration: OpenConfiguration, kinds: Vec<PathKind>) -> (r: Result<String, Error>)
        requires
            old(self).wf(),
            configuration.uris_to_open is Some ==> kinds@.len() == configuration.uris_to_open->0@.len(),
        ensures
            final(self).wf(),
            r is Ok,
            final(self).states.state_map().contains_key(r->Ok_0@),
            forall|k: Seq<char>| #[trigger] old(self).states.state_map().contains_key(k)
                ==> final(self).states.state_map().contains_key(k),
            configuration.force_empty_window && !configuration.initial_startup ==> creates_one_empty_window(
                old(self).actions@,
                final(self).actions@,
                r->Ok_0@,
            ),
            opens_one_hosted_file(old(self).states, old(self).settings, configuration, kinds@) ==> {
                let file = configuration.uris_to_open->0@[0].file->0@;
                &&& sends_file_to(old(self).actions@, final(self).actions@, r->Ok_0@, file)
                &&& final(self).states == old(self).states
                &&& hosts_file(final(self).states.state_map()[r->Ok_0@], file)
            },
            opens_one_new_folder(old(self).states, configuration, kinds@) ==> {
                let folder = configuration.uris_to_open->0@[0].folder->0@;
                &&& creates_one_folder_window(old(self).actions@, final(self).actions@, r->Ok_0@, folder)
                &&& crate::windows::window::has_backup(final(self).backups.folders_view(), folder)
                &&& !crate::windows::window::has_backup(old(self).backups.folders_view(), folder)
                    ==> final(self).backups.folders_view() == old(self).backups.folders_view().push(
                    (r->Ok_0@, Some(folder)),
                )
            },
            ({
                let paths = paths_to_open(
                    old(self).settings,
                    old(self).states,
                    configuration.uris_to_open,
                    kinds@,
                    configuration.force_empty_window,
                    configuration.initial_startup,
                );
                &&& final(self).recents.folders_view() == crate::windows::window::keep_last(
                    old(self).recents.folders_view() + crate::windows::window::recent_folders_of(paths),
                    crate::windows::window::MAX_TOTAL_RECENT_ENTRIES as int,
                )
                &&& final(self).recents.files_view() == crate::windows::window::keep_last(
                    old(self).recents.files_view() + crate::windows::window::recent_files_of(paths),
                    crate::windows::window::MAX_TOTAL_RECENT_ENTRIES as int,
                )
            }),
    {
        let mut folders_to_open: Vec<PathToOpen> = Vec::new();
        let folders_to_add: Vec<PathToOpen> = Vec::new();
        let mut empty_to_restore: Vec<EmptyWindowBackupInfo> = Vec::new();
        let mut files_to_open = FilesToOpen::default();
        let mut empty_to_open: u8 = 0;

        let paths = self.get_paths_to_open(
            &configuration.uris_to_open,
            &kinds,
            &configuration.force_empty_window,
            &configuration.initial_startup,
        );
        let mut i: usize = 0;
        while i < paths.len()
            invariant
                i <= paths@.len(),
                (forall|j: int| 0 <= j < paths@.len() ==> #[trigger] paths@[j].folder is None
                    && paths@[j].file is None && paths@[j].backup_path is None) ==> folders_to_open@.len() == 0
                    && files_to_open.files_to_open_or_create@.len() == 0 && empty_to_restore@.len() == 0,
                paths@.len() == 1 && paths@[0].folder is None && paths@[0].file is Some ==> folders_to_open@.len() == 0
                    && empty_to_restore@.len() == 0 && (i == 0 ==> files_to_open.files_to_open_or_create@.len() == 0)
                    && (i == 1 ==> files_to_open.files_to_open_or_create@.len() == 1
                    && files_to_open.files_to_open_or_create@[0]@ == paths@[0].file->0@),
                paths@.len() == 1 && paths@[0].folder is Some ==> files_to_open.files_to_open_or_create@.len() == 0
                    && empty_to_restore@.len() == 0 && (i == 0 ==> folders_to_open@.len() == 0) && (i == 1
                    ==> folders_to_open@ == seq![paths@[0]]),
            decreases paths@.len() - i,
        {
            let path = &paths[i];
            match &path.folder {
                Some(_) => {
                    folders_to_open.push(path.clone());
                },
                None => match &path.file {
                    Some(file) => {
                        files_to_open.files_to_open_or_create.push(file.clone());
                    },
                    None => match &path.backup_path {
                        Some(backup) => {
                            empty_to_restore.push(
                                EmptyWindowBackupInfo { window: String::new(), backup_folder: Some(backup.clone()) },
                            );
                        },
                        None => {
                            if empty_to_open < 255 {
                                empty_to_open = empty_to_open + 1;
                            }
                        },
                    },
                },
            }
            i = i + 1;
        }

        // Empty windows with backups are restored on initial startup only.
        if configuration.initial_startup {
            let previous = self.backups.list_empty_window_backups();
            append_new_backups(&mut empty_to_restore, &previous);
        } else {
            empty_to_restore = Vec::new();
        }

        proof {
            if configuration.force_empty_window && !configuration.initial_startup {
                assert(paths@ == seq![empty_path()]);
                assert(paths@[0] == empty_path());
            }
            if opens_one_hosted_file(old(self).states, old(self).settings, configuration, kinds@) {
                let u = configuration.uris_to_open->0@;
                assert(extracted(u.drop_last(), kinds@.subrange(0, 0)) == Seq::<PathToOpen>::empty());
                assert(paths@ == seq![classified(u[0].file->0, kinds@[0])]);
                assert(files_to_open.files_to_open_or_create@[0]@ == u[0].file->0@);
            }
            if opens_one_new_folder(old(self).states, configuration, kinds@) {
                let u = configuration.uris_to_open->0@;
                assert(extracted(u.drop_last(), kinds@.subrange(0, 0)) == Seq::<PathToOpen>::empty());
                assert(paths@ == seq![classified(u[0].folder->0, PathKind::Directory)]);
                assert(folders_to_open@ == seq![paths@[0]]);
            }
        }
        let res = self.open(&configuration, folders_to_open, empty_to_restore, empty_to_open, files_to_open, folders_to_add);

        let mut recents: Vec<PathToOpen> = Vec::new();
        let mut i: usize = 0;
        while i < paths.len()
            invariant
                i <= paths@.len(),
                crate::windows::window::recent_folders_of(recents@) == crate::windows::window::recent_folders_of(
                    paths@.subrange(0, i as int),
                ),
                crate::windows::window::recent_files_of(recents@) == crate::windows::window::recent_files_of(
                    paths@.subrange(0, i as int),
                ),
            decreases paths@.len() - i,
        {
            let ghost pre = paths@.subrange(0, i as int + 1);
            assert(pre.drop_last() =~= paths@.subrange(0, i as int));
            if paths[i].folder.is_some() || paths[i].file.is_some() {
                let ghost rb = recents@;
                recents.push(paths[i].clone());
                assert(recents@.drop_last() =~= rb);
            }
            i = i + 1;
        }
        assert(paths@.subrange(0, paths@.len() as int) =~= paths@);
        let _ = self.recents.add_recents(recents);
        res
    }

    /// Opens one empty window: a new one unless reuse is forced.
    pub fn open_empty_window(&mut self, configuration: OpenConfiguration, options: WindowOptions) -> (r: Result<String, Error>)
        requires
            old(self).wf(),
        ensures
            final(self).wf(),
            final(self).grows_from(old(self)),
            r is Ok,
            final(self).states.state_map().contains_key(r->Ok_0@),
            creates_one_empty_window(old(self).actions@, final(self).actions@, r->Ok_0@),
    {
        let empty_configuration = OpenConfiguration {
            force_empty_window: true,
            force_reuse_window: options.force_reuse_window,
            force_new_window: !options.force_reuse_window,
            ..configuration
        };
        let folders: Vec<PathToOpen> = Vec::new();
        let restore: Vec<EmptyWindowBackupInfo> = Vec::new();
        let add: Vec<PathToOpen> = Vec::new();
        self.open(&empty_configuration, folders, restore, 0, FilesToOpen::default(), add)
    }

    /// Brings an existing window to the front.
    pub fn open_existing_window(&mut self, window: &String, configuration: OpenConfiguration) -> (r: Result<(), Error>)
        ensures
            r is Ok,
            final(self).actions@ == old(self).actions@.push(WindowAction::Focus(*window)),
            final(self).states == old(self).states,
            final(self).backups == old(self).backups,
            final(self).recents == old(self).recents,
            final(self).settings == old(self).settings,
            final(self).next_window_id == old(self).next_window_id,
    {
        self.actions.push(WindowAction::Focus(window.clone()));
        Ok(())
    }

    /// Sending to the focused window is not offered: nothing happens.
    pub fn send_to_focused() {
    }

    /// Sending to all windows is not offered: nothing happens.
    pub fn send_to_all() {
    }
}

} // verus!
