//! Window state, backup and recently opened caches.
//!
//! Each cache keeps its document in memory together with the text that was
//! last written to disk, so that a save whose text did not change can be
//! skipped.
use vstd::prelude::*;

use crate::error::Error;
use crate::windows::PathToOpen;
use crate::text::{decimal, decimal_string, join_path, joined, lemma_decimal_injective, lemma_joined_injective, same_text};

verus! {

/// Window bounds rectangle.
pub struct WindowBounds {
    pub x: i32,
    pub y: i32,
    pub height: u32,
    pub width: u32,
}

impl Default for WindowBounds {
    fn default() -> (r: Self)
        ensures
            r.x == 0 && r.y == 0 && r.height == 0 && r.width == 0,
    {
        WindowBounds { x: 0, y: 0, height: 0, width: 0 }
    }
}

impl WindowBounds {
    /// Bounds without width or without height are empty.
    pub fn is_empty(&self) -> (r: bool)
        ensures
            r == (self.width == 0 || self.height == 0),
    {
        self.width == 0 || self.height == 0
    }
}

/// Screen mode of a window.
#[derive(PartialEq, Eq, Structural, Clone, Copy, Debug)]
pub enum WindowMode {
    Maximized,
    Normal,
    Minimized,
    Fullscreen,
}

impl Default for WindowMode {
    fn default() -> (r: Self)
        ensures
            r == WindowMode::Normal,
    {
        WindowMode::Normal
    }
}

/// Whether a window can handle events yet: `Idle`, then `Navigating`, then `Ready`.
#[derive(PartialEq, Eq, Structural, Clone, Copy, Debug)]
pub enum ReadyState {
    Idle,
    Navigating,
    Ready,
}

impl Default for ReadyState {
    fn default() -> (r: Self)
        ensures
            r == ReadyState::Idle,
    {
        ReadyState::Idle
    }
}

/// Rank of a ready state in the order `Idle < Navigating < Ready`.
pub open spec fn ready_rank(s: ReadyState) -> int {
    match s {
        ReadyState::Idle => 0,
        ReadyState::Navigating => 1,
        ReadyState::Ready => 2,
    }
}

/// Copies an optional string, keeping its contents.
pub fn clone_opt(o: &Option<String>) -> (r: Option<String>)
    ensures
        r == *o,
{
    match o {
        Some(s) => Some(s.clone()),
        None => None,
    }
}

/// Copies a list of strings, keeping its contents.
pub fn clone_strings(v: &Vec<String>) -> (r: Vec<String>)
    ensures
        r@ == v@,
{
    let mut r: Vec<String> = Vec::new();
    let mut i: usize = 0;
    while i < v.len()
        invariant
            i <= v@.len(),
            r@ == v@.subrange(0, i as int),
        decreases v@.len() - i,
    {
        r.push(v[i].clone());
        i = i + 1;
    }
    assert(r@ =~= v@);
    r
}

/// Window configuration kept while the window runs.
pub struct WindowConfiguration {
    pub folder: Option<String>,
    pub files_to_open_or_create: Vec<String>,
    pub full_screen: bool,
    pub maximized: bool,
    pub cache_path: Option<String>,
    pub backup_path: Option<String>,
    pub home_dir: Option<String>,
    pub tmp_dir: Option<String>,
    pub user_data_dir: Option<String>,
    pub is_initial_startup: bool,
}

impl WindowConfiguration {
    /// The configuration with nothing set.
    pub open spec fn is_default(&self) -> bool {
        &&& self.folder is None
        &&& self.files_to_open_or_create@.len() == 0
        &&& !self.full_screen
        &&& !self.maximized
        &&& self.cache_path is None
        &&& self.backup_path is None
        &&& self.home_dir is None
        &&& self.tmp_dir is None
        &&& self.user_data_dir is None
        &&& !self.is_initial_startup
    }
}

impl WindowConfiguration {
    /// Field by field equality, lists compared by their contents.
    pub open spec fn same_as(&self, o: &Self) -> bool {
        &&& self.folder == o.folder
        &&& self.files_to_open_or_create@ == o.files_to_open_or_create@
        &&& self.full_screen == o.full_screen
        &&& self.maximized == o.maximized
        &&& self.cache_path == o.cache_path
        &&& self.backup_path == o.backup_path
        &&& self.home_dir == o.home_dir
        &&& self.tmp_dir == o.tmp_dir
        &&& self.user_data_dir == o.user_data_dir
        &&& self.is_initial_startup == o.is_initial_startup
    }
}

impl Default for WindowConfiguration {
    fn default() -> (r: Self)
        ensures
            r.is_default(),
    {
        WindowConfiguration {
            folder: None,
            files_to_open_or_create: Vec::new(),
            full_screen: false,
            maximized: false,
            cache_path: None,
            backup_path: None,
            home_dir: None,
            tmp_dir: None,
            user_data_dir: None,
            is_initial_startup: false,
        }
    }
}

impl Clone for WindowConfiguration {
    fn clone(&self) -> (r: Self)
        ensures
            r.same_as(self),
    {
        let files = clone_strings(&self.files_to_open_or_create);
        let r = WindowConfiguration {
            folder: clone_opt(&self.folder),
            files_to_open_or_create: files,
            full_screen: self.full_screen,
            maximized: self.maximized,
            cache_path: clone_opt(&self.cache_path),
            backup_path: clone_opt(&self.backup_path),
            home_dir: clone_opt(&self.home_dir),
            tmp_dir: clone_opt(&self.tmp_dir),
            user_data_dir: clone_opt(&self.user_data_dir),
            is_initial_startup: self.is_initial_startup,
        };
        r
    }
}

/// Window state cached while the application runs.
pub struct WindowState {
    pub configuration: WindowConfiguration,
    pub mode: WindowMode,
    pub display: u32,
    pub id: u32,
    /// Milliseconds since the Unix epoch at which the window last gained focus.
    pub last_focus_time: u64,
    pub ready_state: ReadyState,
    /// For a window without a folder, the id of the empty workspace whose
    /// backup it owns; its staging location is in the configuration.
    pub backup_path: Option<String>,
    pub folder: Option<String>,
}

impl WindowState {
    /// Field by field equality, lists compared by their contents.
    pub open spec fn same_as(&self, o: &Self) -> bool {
        &&& self.configuration.same_as(&o.configuration)
        &&& self.mode == o.mode
        &&& self.display == o.display
        &&& self.id == o.id
        &&& self.last_focus_time == o.last_focus_time
        &&& self.ready_state == o.ready_state
        &&& self.backup_path == o.backup_path
        &&& self.folder == o.folder
    }

    /// The state of a window that was just created.
    pub open spec fn is_default(&self) -> bool {
        &&& self.configuration.is_default()
        &&& self.mode == WindowMode::Normal
        &&& self.display == 0
        &&& self.id == 0
        &&& self.last_focus_time == 0
        &&& self.ready_state == ReadyState::Idle
        &&& self.backup_path is None
        &&& self.folder is None
    }
}

impl WindowState {
    /// Equal to `o` in everything but the last focus time.
    pub open spec fn same_but_focus_time(&self, o: &Self) -> bool {
        &&& self.configuration.same_as(&o.configuration)
        &&& self.mode == o.mode
        &&& self.display == o.display
        &&& self.id == o.id
        &&& self.ready_state == o.ready_state
        &&& self.backup_path == o.backup_path
        &&& self.folder == o.folder
    }

    /// Equal to `o` in everything but the ready state.
    pub open spec fn same_but_ready(&self, o: &Self) -> bool {
        &&& self.configuration.same_as(&o.configuration)
        &&& self.mode == o.mode
        &&& self.display == o.display
        &&& self.id == o.id
        &&& self.last_focus_time == o.last_focus_time
        &&& self.backup_path == o.backup_path
        &&& self.folder == o.folder
    }
}

impl Default for WindowState {
    fn default() -> (r: Self)
        ensures
            r.is_default(),
    {
        WindowState {
            configuration: WindowConfiguration::default(),
            mode: WindowMode::Normal,
            display: 0,
            id: 0,
            last_focus_time: 0,
            ready_state: ReadyState::Idle,
            backup_path: None,
            folder: None,
        }
    }
}

impl Clone for WindowState {
    fn clone(&self) -> (r: Self)
        ensures
            r.same_as(self),
    {
        WindowState {
            configuration: self.configuration.clone(),
            mode: self.mode,
            display: self.display,
            id: self.id,
            last_focus_time: self.last_focus_time,
            ready_state: self.ready_state,
            backup_path: clone_opt(&self.backup_path),
            folder: clone_opt(&self.folder),
        }
    }
}

/// The window that was active last, with its state at that time.
pub struct LastActiveWindow {
    pub label: String,
    pub state: WindowState,
}

/// Every label occurs at most once.
pub open spec fn labels_unique(s: Seq<(String, WindowState)>) -> bool {
    forall|i: int, j: int|
        0 <= i < s.len() && 0 <= j < s.len() && i != j ==> #[trigger] s[i].0@ != #[trigger] s[j].0@
}

/// Some entry has this label.
pub open spec fn has_label(s: Seq<(String, WindowState)>, key: Seq<char>) -> bool {
    exists|i: int| 0 <= i < s.len() && #[trigger] s[i].0@ == key
}

/// All window states, keyed by window label, with the last active and
/// focused windows and whether the application was restarted.
pub struct WindowsState {
    /// Labelled window states; each label occurs once.
    pub opened_windows: Vec<(String, WindowState)>,
    pub last_active_window: Option<LastActiveWindow>,
    pub focused_window: Option<String>,
    pub was_restarted: bool,
}

impl WindowsState {
    pub open spec fn wf(&self) -> bool {
        labels_unique(self.opened_windows@)
    }

    /// No window, no pointers, not restarted.
    pub open spec fn is_default(&self) -> bool {
        &&& self.opened_windows@.len() == 0
        &&& self.last_active_window is None
        &&& self.focused_window is None
        &&& !self.was_restarted
    }
}

impl Default for WindowsState {
    fn default() -> (r: Self)
        ensures
            r.is_default(),
            r.wf(),
    {
        WindowsState {
            opened_windows: Vec::new(),
            last_active_window: None,
            focused_window: None,
            was_restarted: false,
        }
    }
}

/// The position of the entry with label `key`, where there is one.
pub open spec fn label_index(s: Seq<(String, WindowState)>, key: Seq<char>) -> int {
    choose|i: int| 0 <= i < s.len() && #[trigger] s[i].0@ == key
}

/// The window states keyed by label.
pub open spec fn windows_map(s: Seq<(String, WindowState)>) -> Map<Seq<char>, WindowState> {
    Map::new(|k: Seq<char>| has_label(s, k), |k: Seq<char>| s[label_index(s, k)].1)
}

/// With unique labels, the entry found for a label is the one at its position.
pub proof fn lemma_label_index(s: Seq<(String, WindowState)>, i: int)
    requires
        labels_unique(s),
        0 <= i < s.len(),
    ensures
        label_index(s, s[i].0@) == i,
        has_label(s, s[i].0@),
        windows_map(s)[s[i].0@] == s[i].1,
{
    let k = s[i].0@;
    assert(has_label(s, k));
    let j = label_index(s, k);
    assert(s[j].0@ == k);
}

/// Replacing the state at one position replaces that label's entry in the map.
proof fn lemma_map_update(s: Seq<(String, WindowState)>, i: int, e: (String, WindowState))
    requires
        labels_unique(s),
        0 <= i < s.len(),
        e.0@ == s[i].0@,
    ensures
        labels_unique(s.update(i, e)),
        windows_map(s.update(i, e)) == windows_map(s).insert(e.0@, e.1),
{
    let t = s.update(i, e);
    assert forall|a: int, b: int| 0 <= a < t.len() && 0 <= b < t.len() && a != b
        implies #[trigger] t[a].0@ != #[trigger] t[b].0@ by {
        assert(t[a].0@ == s[a].0@);
        assert(t[b].0@ == s[b].0@);
    }
    assert forall|k: Seq<char>| has_label(t, k) <==> has_label(s, k) by {
        if has_label(t, k) {
            let j = choose|j: int| 0 <= j < t.len() && #[trigger] t[j].0@ == k;
            assert(s[j].0@ == k);
        }
        if has_label(s, k) {
            let j = choose|j: int| 0 <= j < s.len() && #[trigger] s[j].0@ == k;
            assert(t[j].0@ == k);
        }
    }
    assert forall|k: Seq<char>| has_label(t, k) implies
        windows_map(t)[k] == windows_map(s).insert(e.0@, e.1)[k] by {
        let j = choose|j: int| 0 <= j < t.len() && #[trigger] t[j].0@ == k;
        lemma_label_index(t, j);
        assert(s[j].0@ == k);
        lemma_label_index(s, j);
    }
    assert(windows_map(t) =~= windows_map(s).insert(e.0@, e.1));
}

/// Appending an entry with a new label adds that label to the map.
proof fn lemma_map_push(s: Seq<(String, WindowState)>, e: (String, WindowState))
    requires
        labels_unique(s),
        !has_label(s, e.0@),
    ensures
        labels_unique(s.push(e)),
        windows_map(s.push(e)) == windows_map(s).insert(e.0@, e.1),
{
    let t = s.push(e);
    assert forall|a: int, b: int| 0 <= a < t.len() && 0 <= b < t.len() && a != b
        implies #[trigger] t[a].0@ != #[trigger] t[b].0@ by {
        if a < s.len() && b < s.len() {
            assert(t[a] == s[a] && t[b] == s[b]);
        } else if a < s.len() {
            assert(t[a] == s[a]);
            assert(s[a].0@ != e.0@);
        } else {
            assert(t[b] == s[b]);
            assert(s[b].0@ != e.0@);
        }
    }
    assert forall|k: Seq<char>| has_label(t, k) <==> (has_label(s, k) || k == e.0@) by {
        if has_label(t, k) {
            let j = choose|j: int| 0 <= j < t.len() && #[trigger] t[j].0@ == k;
            if j < s.len() {
                assert(s[j].0@ == k);
            }
        }
        if has_label(s, k) {
            let j = choose|j: int| 0 <= j < s.len() && #[trigger] s[j].0@ == k;
            assert(t[j].0@ == k);
        }
        if k == e.0@ {
            assert(t[s.len() as int].0@ == k);
        }
    }
    assert forall|k: Seq<char>| has_label(t, k) implies
        windows_map(t)[k] == windows_map(s).insert(e.0@, e.1)[k] by {
        let j = choose|j: int| 0 <= j < t.len() && #[trigger] t[j].0@ == k;
        lemma_label_index(t, j);
        if j < s.len() {
            assert(s[j] == t[j]);
            lemma_label_index(s, j);
        }
    }
    assert(windows_map(t) =~= windows_map(s).insert(e.0@, e.1));
}

/// Removing the entry at one position removes its label from the map.
proof fn lemma_map_remove(s: Seq<(String, WindowState)>, i: int)
    requires
        labels_unique(s),
        0 <= i < s.len(),
    ensures
        labels_unique(s.remove(i)),
        windows_map(s.remove(i)) == windows_map(s).remove(s[i].0@),
{
    let t = s.remove(i);
    assert forall|a: int| 0 <= a < t.len() implies #[trigger] t[a] == s[if a < i { a } else { a + 1 }] by {}
    assert forall|a: int, b: int| 0 <= a < t.len() && 0 <= b < t.len() && a != b
        implies #[trigger] t[a].0@ != #[trigger] t[b].0@ by {
        let a1 = if a < i { a } else { a + 1 };
        let b1 = if b < i { b } else { b + 1 };
        assert(t[a] == s[a1]);
        assert(t[b] == s[b1]);
    }
    assert forall|k: Seq<char>| has_label(t, k) <==> (has_label(s, k) && k != s[i].0@) by {
        if has_label(t, k) {
            let j = choose|j: int| 0 <= j < t.len() && #[trigger] t[j].0@ == k;
            let j1 = if j < i { j } else { j + 1 };
            assert(t[j] == s[j1]);
            assert(s[j1].0@ == k);
        }
        if has_label(s, k) && k != s[i].0@ {
            let j = choose|j: int| 0 <= j < s.len() && #[trigger] s[j].0@ == k;
            if j < i {
                assert(t[j] == s[j]);
            } else {
                assert(t[j - 1] == s[j]);
            }
        }
    }
    assert forall|k: Seq<char>| has_label(t, k) implies
        windows_map(t)[k] == windows_map(s).remove(s[i].0@)[k] by {
        let j = choose|j: int| 0 <= j < t.len() && #[trigger] t[j].0@ == k;
        let j1 = if j < i { j } else { j + 1 };
        assert(t[j] == s[j1]);
        lemma_label_index(t, j);
        lemma_label_index(s, j1);
    }
    assert(windows_map(t) =~= windows_map(s).remove(s[i].0@));
}

/// `m` after setting each labelled state of `items`, in order.
pub open spec fn map_with_items(
    m: Map<Seq<char>, WindowState>,
    items: Seq<(String, WindowState)>,
) -> Map<Seq<char>, WindowState>
    decreases items.len(),
{
    if items.len() == 0 {
        m
    } else {
        map_with_items(m, items.drop_last()).insert(items.last().0@, items.last().1)
    }
}

/// The window state cache: the window states in memory, the file they are
/// saved to, and the text that was last written there.
pub struct InnerWindowsStateCache {
    pub storage_path: String,
    pub last_saved_storage_contents: String,
    pub storage: WindowsState,
}

impl InnerWindowsStateCache {
    pub open spec fn wf(&self) -> bool {
        self.storage.wf()
    }

    /// The labelled window states.
    pub open spec fn windows(&self) -> Seq<(String, WindowState)> {
        self.storage.opened_windows@
    }

    /// The window states keyed by label.
    pub open spec fn state_map(&self) -> Map<Seq<char>, WindowState> {
        windows_map(self.windows())
    }

    /// Everything but the window list is as in `o`.
    pub open spec fn unchanged_but_windows(&self, o: &Self) -> bool {
        &&& self.storage_path == o.storage_path
        &&& self.last_saved_storage_contents == o.last_saved_storage_contents
        &&& self.storage.last_active_window == o.storage.last_active_window
        &&& self.storage.focused_window == o.storage.focused_window
        &&& self.storage.was_restarted == o.storage.was_restarted
    }

    /// Whether a save of the document serialised as `serialized` has to write.
    pub open spec fn needs_save_spec(&self, serialized: Seq<char>) -> bool {
        serialized != self.last_saved_storage_contents@
    }

    /// A cache over a loaded document; `contents` is the text it was read from.
    pub fn from_loaded(storage_path: String, contents: String, storage: WindowsState) -> (r: Self)
        ensures
            r.storage_path == storage_path,
            r.last_saved_storage_contents == contents,
            r.storage == storage,
    {
        InnerWindowsStateCache { storage_path, last_saved_storage_contents: contents, storage }
    }

    pub fn storage(&self) -> (r: &WindowsState)
        ensures
            *r == self.storage,
    {
        &self.storage
    }

    pub fn state(&self) -> (r: &WindowsState)
        ensures
            *r == self.storage,
    {
        &self.storage
    }

    pub fn state_mut(&mut self) -> (r: &mut WindowsState)
        ensures
            *r == old(self).storage,
            final(self).storage == *final(r),
            final(self).storage_path == old(self).storage_path,
            final(self).last_saved_storage_contents == old(self).last_saved_storage_contents,
    {
        &mut self.storage
    }

    /// A fresh window state, as a newly created window gets.
    pub fn get_state(&self) -> (r: WindowState)
        ensures
            r.is_default(),
    {
        WindowState::default()
    }

    /// A fresh window state that the caller may fill in.
    pub fn get_state_mut(&self) -> (r: WindowState)
        ensures
            r.is_default(),
    {
        WindowState::default()
    }

    /// Position of the window with this label.
    pub fn index_of(&self, key: &str) -> (r: Option<usize>)
        requires
            self.wf(),
        ensures
            match r {
                Some(i) => i < self.windows().len() && self.windows()[i as int].0@ == key@
                    && self.state_map().contains_key(key@)
                    && self.state_map()[key@] == self.windows()[i as int].1,
                None => !has_label(self.windows(), key@) && !self.state_map().contains_key(key@),
            },
    {
        let mut i: usize = 0;
        while i < self.storage.opened_windows.len()
            invariant
                self.wf(),
                i <= self.windows().len(),
                forall|j: int| 0 <= j < i ==> #[trigger] self.windows()[j].0@ != key@,
            decreases self.windows().len() - i,
        {
            if same_text(self.storage.opened_windows[i].0.as_str(), key) {
                proof {
                    lemma_label_index(self.windows(), i as int);
                }
                return Some(i);
            }
            i = i + 1;
        }
        None
    }

    /// The state of the window with this label.
    pub fn get_item(&self, key: &str) -> (r: Option<WindowState>)
        requires
            self.wf(),
        ensures
            r is None <==> !self.state_map().contains_key(key@),
            r is Some ==> r->0.same_as(&self.state_map()[key@]),
    {
        match self.index_of(key) {
            Some(i) => {
                proof {
                    lemma_label_index(self.windows(), i as int);
                }
                Some(self.storage.opened_windows[i].1.clone())
            },
            None => None,
        }
    }

    /// Sets the state of the window with this label, adding the window when
    /// it is not known yet.
    pub fn set_item(&mut self, key: &str, data: WindowState) -> (r: Result<(), Error>)
        requires
            old(self).wf(),
        ensures
            final(self).wf(),
            r is Ok,
            final(self).state_map() == old(self).state_map().insert(key@, data),
            old(self).state_map().contains_key(key@) && old(self).state_map()[key@] == data
                ==> final(self).windows() == old(self).windows(),
            final(self).unchanged_but_windows(old(self)),
    {
        match self.index_of(key) {
            Some(i) => {
                let label = self.storage.opened_windows[i].0.clone();
                proof {
                    lemma_label_index(self.windows(), i as int);
                }
                proof {
                    lemma_map_update(self.windows(), i as int, (label, data));
                }
                self.storage.opened_windows.set(i, (label, data));
                proof {
                    if old(self).state_map()[key@] == data {
                        assert(self.windows() =~= old(self).windows());
                    }
                }
            },
            None => {
                let label = key.to_owned();
                proof {
                    lemma_map_push(self.windows(), (label, data));
                }
                self.storage.opened_windows.push((label, data));
            },
        }
        Ok(())
    }

    /// Sets the state of each labelled window in order; a later entry for a
    /// label wins over an earlier one.
    pub fn set_items(&mut self, items: Vec<(String, WindowState)>) -> (r: Result<(), Error>)
        requires
            old(self).wf(),
        ensures
            final(self).wf(),
            r is Ok,
            final(self).state_map() == map_with_items(old(self).state_map(), items@),
            (forall|j: int| 0 <= j < items@.len() ==> old(self).state_map().contains_key(#[trigger] items@[j].0@)
                && old(self).state_map()[items@[j].0@] == items@[j].1) ==> final(self).windows() == old(self).windows(),
            final(self).unchanged_but_windows(old(self)),
    {
        let ghost same = forall|j: int| 0 <= j < items@.len() ==> old(self).state_map().contains_key(#[trigger] items@[j].0@)
            && old(self).state_map()[items@[j].0@] == items@[j].1;
        let ghost orig = items@;
        let mut items = items;
        let total: usize = items.len();
        let mut n: usize = 0;
        while items.len() > 0
            invariant
                self.wf(),
                n <= orig.len(),
                orig.len() == total,
                n + items@.len() == orig.len(),
                items@ == orig.subrange(n as int, orig.len() as int),
                self.state_map() == map_with_items(old(self).state_map(), orig.subrange(0, n as int)),
                same == (forall|j: int| 0 <= j < orig.len() ==> old(self).state_map().contains_key(#[trigger] orig[j].0@)
                    && old(self).state_map()[orig[j].0@] == orig[j].1),
                same ==> self.windows() == old(self).windows(),
                self.unchanged_but_windows(old(self)),
            decreases items@.len(),
        {
            let (key, data) = items.remove(0);
            proof {
                if same {
                    assert(orig[n as int].0@ == key@);
                }
                assert(orig.subrange(0, n as int + 1).drop_last() =~= orig.subrange(0, n as int));
                assert(orig[n as int] == (key, data));
            }
            let _ = self.set_item(key.as_str(), data);
            n = n + 1;
            assert(items@ =~= orig.subrange(n as int, orig.len() as int));
        }
        assert(orig.subrange(0, n as int) =~= orig);
        Ok(())
    }

    /// Removes the window with this label; an unknown label is an error.
    pub fn remove_item(&mut self, key: &str) -> (r: Result<(), Error>)
        requires
            old(self).wf(),
        ensures
            final(self).wf(),
            r is Ok <==> old(self).state_map().contains_key(key@),
            r is Err ==> r->Err_0.is_not_found_for(key@),
            final(self).state_map() == old(self).state_map().remove(key@),
            final(self).unchanged_but_windows(old(self)),
    {
        match self.index_of(key) {
            Some(i) => {
                proof {
                    lemma_map_remove(self.windows(), i as int);
                }
                let _ = self.storage.opened_windows.remove(i);
                Ok(())
            },
            None => {
                assert(old(self).state_map().remove(key@) =~= old(self).state_map());
                Err(Error::WindowStateWithLabelNotFound(key.to_owned()))
            },
        }
    }

    /// Nothing to update when the host reports new window state.
    pub fn set_state(&self) -> (r: Result<(), Error>)
        ensures
            r is Ok,
    {
        Ok(())
    }

    /// A window was created: it gets a fresh state unless it has one.
    pub fn handle_created_window(&mut self, label: &str)
        requires
            old(self).wf(),
        ensures
            final(self).wf(),
            old(self).state_map().contains_key(label@) ==> final(self).state_map() == old(self).state_map(),
            !old(self).state_map().contains_key(label@) ==> final(self).state_map().contains_key(label@)
                && final(self).state_map()[label@].is_default()
                && final(self).state_map().remove(label@) == old(self).state_map(),
            final(self).unchanged_but_windows(old(self)),
    {
        if self.index_of(label).is_none() {
            let _ = self.set_item(label, WindowState::default());
            assert(self.state_map().remove(label@) =~= old(self).state_map());
        }
    }

    /// A window was destroyed: its state is dropped, if it had one.
    pub fn handle_destroyed_window(&mut self, label: &str)
        requires
            old(self).wf(),
        ensures
            final(self).wf(),
            final(self).state_map() == old(self).state_map().remove(label@),
            final(self).unchanged_but_windows(old(self)),
    {
        let _ = self.remove_item(label);
    }

    /// A window gained or lost focus at `now` (milliseconds since the Unix
    /// epoch): on gaining it, its last focus time becomes `now`.
    pub fn handle_focused_window(&mut self, label: &str, focus: &bool, now: u64)
        requires
            old(self).wf(),
        ensures
            final(self).wf(),
            final(self).unchanged_but_windows(old(self)),
            *focus && old(self).state_map().contains_key(label@) ==> final(self).state_map()
                == old(self).state_map().insert(label@, final(self).state_map()[label@])
                && final(self).state_map()[label@].last_focus_time == now
                && final(self).state_map()[label@].same_but_focus_time(&old(self).state_map()[label@]),
            !(*focus && old(self).state_map().contains_key(label@)) ==> final(self).state_map()
                == old(self).state_map(),
    {
        if *focus {
            let _ = self.set_last_focus_time(label, now);
        }
    }

    /// A window is asked to close; its state stays until it is destroyed.
    pub fn handle_close_window(&mut self, label: &str)
        ensures
            *final(self) == *old(self),
    {
    }

    /// The last focus time of the window with this label; zero for an unknown label.
    pub fn last_focus_time(&self, label: &str) -> (r: u64)
        requires
            self.wf(),
        ensures
            self.state_map().contains_key(label@) ==> r == self.state_map()[label@].last_focus_time,
            !self.state_map().contains_key(label@) ==> r == 0,
    {
        match self.index_of(label) {
            Some(i) => self.storage.opened_windows[i].1.last_focus_time,
            None => 0,
        }
    }

    /// Sets the last focus time of the window with this label to `now`.
    pub fn set_last_focus_time(&mut self, label: &str, now: u64) -> (r: Result<(), Error>)
        requires
            old(self).wf(),
        ensures
            final(self).wf(),
            final(self).unchanged_but_windows(old(self)),
            r is Ok <==> old(self).state_map().contains_key(label@),
            r is Err ==> r->Err_0.is_not_found_for(label@),
            r is Ok ==> final(self).state_map()
                == old(self).state_map().insert(label@, final(self).state_map()[label@])
                && final(self).state_map()[label@].last_focus_time == now
                && final(self).state_map()[label@].same_but_focus_time(&old(self).state_map()[label@]),
            r is Err ==> final(self).state_map() == old(self).state_map(),
    {
        match self.index_of(label) {
            Some(i) => {
                let (l, st) = self.storage.opened_windows.remove(i);
                let mut st = st;
                st.last_focus_time = now;
                let ghost e = (l, st);
                proof {
                    lemma_map_update(old(self).windows(), i as int, e);
                }
                self.storage.opened_windows.insert(i, (l, st));
                assert(self.windows() =~= old(self).windows().update(i as int, e));
                Ok(())
            },
            None => Err(Error::WindowStateWithLabelNotFound(label.to_owned())),
        }
    }

    /// Sets the state of the window with this label.
    pub fn set_window_state(&mut self, label: &str, new_state: WindowState) -> (r: Result<(), Error>)
        requires
            old(self).wf(),
        ensures
            final(self).wf(),
            r is Ok,
            final(self).state_map() == old(self).state_map().insert(label@, new_state),
            final(self).unchanged_but_windows(old(self)),
    {
        self.set_item(label, new_state)
    }

    /// Drops the state of the window with this label; an unknown label is an error.
    pub fn destroy_window_state(&mut self, label: &str) -> (r: Result<(), Error>)
        requires
            old(self).wf(),
        ensures
            final(self).wf(),
            r is Ok <==> old(self).state_map().contains_key(label@),
            r is Err ==> r->Err_0.is_not_found_for(label@),
            final(self).state_map() == old(self).state_map().remove(label@),
            final(self).unchanged_but_windows(old(self)),
    {
        self.remove_item(label)
    }

    /// Marks the window with this label as ready for events.
    pub fn set_ready(&mut self, label: &str) -> (r: Result<(), Error>)
        requires
            old(self).wf(),
        ensures
            final(self).wf(),
            final(self).unchanged_but_windows(old(self)),
            r is Ok <==> old(self).state_map().contains_key(label@),
            r is Err ==> r->Err_0.is_not_found_for(label@),
            r is Ok ==> final(self).state_map()
                == old(self).state_map().insert(label@, final(self).state_map()[label@])
                && final(self).state_map()[label@].ready_state == ReadyState::Ready
                && ready_rank(final(self).state_map()[label@].ready_state) >= ready_rank(
                old(self).state_map()[label@].ready_state,
            ) && final(self).state_map()[label@].same_but_ready(&old(self).state_map()[label@]),
            r is Err ==> final(self).state_map() == old(self).state_map(),
    {
        match self.index_of(label) {
            Some(i) => {
                let (l, st) = self.storage.opened_windows.remove(i);
                let mut st = st;
                st.ready_state = ReadyState::Ready;
                let ghost e = (l, st);
                proof {
                    lemma_map_update(old(self).windows(), i as int, e);
                }
                self.storage.opened_windows.insert(i, (l, st));
                assert(self.windows() =~= old(self).windows().update(i as int, e));
                Ok(())
            },
            None => Err(Error::WindowStateWithLabelNotFound(label.to_owned())),
        }
    }

    /// Whether the window with this label is ready for events.
    pub fn is_ready(&self, label: &str) -> (r: bool)
        requires
            self.wf(),
        ensures
            r == (self.state_map().contains_key(label@)
                && self.state_map()[label@].ready_state == ReadyState::Ready),
    {
        match self.index_of(label) {
            Some(i) => self.storage.opened_windows[i].1.ready_state == ReadyState::Ready,
            None => false,
        }
    }

    /// Whether saving the document, serialised as `serialized`, has to write:
    /// only when the text differs from what was last written.
    pub fn needs_save(&self, serialized: &String) -> (r: bool)
        ensures
            r == self.needs_save_spec(serialized@),
    {
        !same_text(serialized.as_str(), self.last_saved_storage_contents.as_str())
    }

    /// Records that `serialized` was written to disk.
    pub fn mark_saved(&mut self, serialized: String)
        ensures
            final(self).last_saved_storage_contents == serialized,
            final(self).storage == old(self).storage,
            final(self).storage_path == old(self).storage_path,
    {
        self.last_saved_storage_contents = serialized;
    }
}

/// The optional text as a sequence of characters.
pub open spec fn opt_view(o: Option<String>) -> Option<Seq<char>> {
    match o {
        Some(s) => Some(s@),
        None => None,
    }
}

/// The window that owns the backup of a folder.
pub struct FolderBackupInfo {
    pub window: String,
    pub folder: Option<String>,
}

impl View for FolderBackupInfo {
    type V = (Seq<char>, Option<Seq<char>>);

    open spec fn view(&self) -> (Seq<char>, Option<Seq<char>>) {
        (self.window@, opt_view(self.folder))
    }
}

impl Clone for FolderBackupInfo {
    fn clone(&self) -> (r: Self)
        ensures
            r == *self,
    {
        FolderBackupInfo { window: self.window.clone(), folder: clone_opt(&self.folder) }
    }
}

/// The window that owns the backup of an empty (untitled) workspace.
pub struct EmptyWindowBackupInfo {
    pub window: String,
    pub backup_folder: Option<String>,
}

impl View for EmptyWindowBackupInfo {
    type V = (Seq<char>, Option<Seq<char>>);

    open spec fn view(&self) -> (Seq<char>, Option<Seq<char>>) {
        (self.window@, opt_view(self.backup_folder))
    }
}

impl Clone for EmptyWindowBackupInfo {
    fn clone(&self) -> (r: Self)
        ensures
            r == *self,
    {
        EmptyWindowBackupInfo { window: self.window.clone(), backup_folder: clone_opt(&self.backup_folder) }
    }
}

impl Default for EmptyWindowBackupInfo {
    fn default() -> (r: Self)
        ensures
            r.window@.len() == 0,
            r.backup_folder is None,
    {
        EmptyWindowBackupInfo { window: String::new(), backup_folder: None }
    }
}

/// A backup record, seen as (owning window, backed up folder or workspace id).
pub type BackupRecord = (Seq<char>, Option<Seq<char>>);

/// Some record of `v` is for `key`.
pub open spec fn has_backup(v: Seq<BackupRecord>, key: Seq<char>) -> bool {
    exists|i: int| 0 <= i < v.len() && #[trigger] v[i].1 == Some(key)
}

/// No two records of `v` are for the same folder or workspace id.
pub open spec fn backups_unique(v: Seq<BackupRecord>) -> bool {
    forall|i: int, j: int|
        0 <= i < v.len() && 0 <= j < v.len() && i != j && (#[trigger] v[i]).1 is Some ==> v[i].1 != (
        #[trigger] v[j]).1
}

/// `v` after asking for a backup of `key` owned by `window`: a record is
/// added only when none is there for `key`.
pub open spec fn with_backup(v: Seq<BackupRecord>, key: Seq<char>, window: Seq<char>) -> Seq<BackupRecord> {
    if has_backup(v, key) {
        v
    } else {
        v.push((window, Some(key)))
    }
}

/// The records of `v` without those whose folder or workspace an earlier
/// record already covers.
pub open spec fn without_repeats(v: Seq<BackupRecord>) -> Seq<BackupRecord>
    decreases v.len(),
{
    if v.len() == 0 {
        Seq::empty()
    } else {
        let rest = without_repeats(v.drop_last());
        if v.last().1 is Some && has_backup(rest, v.last().1->0) {
            rest
        } else {
            rest.push(v.last())
        }
    }
}

/// Appending a record for a folder or workspace not covered yet keeps the
/// records unique.
proof fn lemma_push_keeps_unique(v: Seq<BackupRecord>, e: BackupRecord)
    requires
        backups_unique(v),
        e.1 is Some ==> !has_backup(v, e.1->0),
    ensures
        backups_unique(v.push(e)),
{
    let w = v.push(e);
    assert forall|i: int, j: int|
        0 <= i < w.len() && 0 <= j < w.len() && i != j && (#[trigger] w[i]).1 is Some
        implies w[i].1 != (#[trigger] w[j]).1 by {
        if i == v.len() {
            assert(w[j] == v[j]);
            assert(v[j].1 != Some(e.1->0));
        } else if j == v.len() {
            assert(w[i] == v[i]);
            if e.1 is Some {
                assert(v[i].1 != Some(e.1->0));
            }
        } else {
            assert(w[i] == v[i] && w[j] == v[j]);
        }
    }
}

/// The records of folder backups.
pub open spec fn folder_records(s: Seq<FolderBackupInfo>) -> Seq<BackupRecord> {
    s.map_values(|e: FolderBackupInfo| e@)
}

/// The records of empty window backups.
pub open spec fn empty_records(s: Seq<EmptyWindowBackupInfo>) -> Seq<BackupRecord> {
    s.map_values(|e: EmptyWindowBackupInfo| e@)
}

/// The backups of folders and of empty windows.
pub struct WindowsBackup {
    pub folders: Vec<FolderBackupInfo>,
    pub empty_windows: Vec<EmptyWindowBackupInfo>,
}

impl WindowsBackup {
    pub open spec fn wf(&self) -> bool {
        &&& backups_unique(folder_records(self.folders@))
        &&& backups_unique(empty_records(self.empty_windows@))
    }
}

impl Default for WindowsBackup {
    fn default() -> (r: Self)
        ensures
            r.folders@.len() == 0,
            r.empty_windows@.len() == 0,
    {
        WindowsBackup { folders: Vec::new(), empty_windows: Vec::new() }
    }
}

/// Hash of a folder path, as the standard library's default hasher computes it.
pub uninterp spec fn folder_hash_of(folder: Seq<char>) -> u64;

/// Relies on `BuildHasher::hash_one` with std's `DefaultHasher` (built by
/// `BuildHasherDefault`): a 64-bit hash of the folder text. Every
/// `DefaultHasher` made this way starts from the same keys, so equal texts
/// give equal hashes.
#[verifier::external_body]
fn hash_folder(folder: &str) -> (r: u64)
    ensures
        r == folder_hash_of(folder@),
{
    std::hash::BuildHasher::hash_one(
        &std::hash::BuildHasherDefault::<std::collections::hash_map::DefaultHasher>::default(),
        folder,
    )
}

/// The number after `n`; the largest value is followed by zero.
pub open spec fn next_after(n: u64) -> u64 {
    if n == u64::MAX {
        0
    } else {
        (n + 1) as u64
    }
}

/// The first number from `n` on whose decimal form no record of `v` holds,
/// or the largest number when there is none.
pub open spec fn first_free(v: Seq<BackupRecord>, n: u64) -> u64
    decreases u64::MAX - n,
{
    if n == u64::MAX || !has_backup(v, decimal(n as nat)) {
        n
    } else {
        first_free(v, (n + 1) as u64)
    }
}

/// The number found is at least `n`, and no record holds it unless it is
/// the largest number.
pub proof fn lemma_first_free(v: Seq<BackupRecord>, n: u64)
    ensures
        first_free(v, n) >= n,
        first_free(v, n) < u64::MAX ==> !has_backup(v, decimal(first_free(v, n) as nat)),
    decreases u64::MAX - n,
{
    if n < u64::MAX && has_backup(v, decimal(n as nat)) {
        lemma_first_free(v, (n + 1) as u64);
    }
}

/// The staging location of a folder's backup under the backup root.
pub open spec fn folder_staging(root: Seq<char>, folder: Seq<char>) -> Seq<char> {
    joined(root, decimal(folder_hash_of(folder) as nat))
}

/// The backup cache: where backups are staged, which folders and empty
/// windows have one, and the text last written to disk.
pub struct InnerWindowsBackupCache {
    pub backup_path: String,
    pub backups: WindowsBackup,
    pub last_saved_backup_contents: String,
    /// The next id to give to a new empty window.
    pub next_empty_window_id: u64,
}

impl InnerWindowsBackupCache {
    pub open spec fn wf(&self) -> bool {
        self.backups.wf()
    }

    /// The next id that a new empty window gets.
    pub open spec fn next_id(&self) -> u64 {
        self.next_empty_window_id
    }

    pub open spec fn folders_view(&self) -> Seq<BackupRecord> {
        folder_records(self.backups.folders@)
    }

    pub open spec fn empty_view(&self) -> Seq<BackupRecord> {
        empty_records(self.backups.empty_windows@)
    }

    /// Whether a save of the document serialised as `serialized` has to write.
    pub open spec fn needs_save_spec(&self, serialized: Seq<char>) -> bool {
        serialized != self.last_saved_backup_contents@
    }

    /// A cache over a loaded document, staging backups under `backup_path`;
    /// empty window ids start at one.
    pub fn from_loaded(backup_path: String, contents: String, backups: WindowsBackup) -> (r: Self)
        ensures
            r.backup_path == backup_path,
            r.last_saved_backup_contents == contents,
            r.backups == backups,
            r.next_id() == 1,
    {
        InnerWindowsBackupCache {
            backup_path,
            backups,
            last_saved_backup_contents: contents,
            next_empty_window_id: 1,
        }
    }

    /// A cache over loaded backup records, staging backups under
    /// `backup_path`: a record for a folder or workspace that an earlier
    /// record already covers is dropped.
    pub fn from_records(
        backup_path: String,
        contents: String,
        folders: Vec<FolderBackupInfo>,
        empty_windows: Vec<EmptyWindowBackupInfo>,
    ) -> (r: Self)
        ensures
            r.wf(),
            r.backup_path == backup_path,
            r.last_saved_backup_contents == contents,
            r.folders_view() == without_repeats(folder_records(folders@)),
            r.empty_view() == without_repeats(empty_records(empty_windows@)),
            r.next_id() == 1,
    {
        let mut cache = InnerWindowsBackupCache::from_loaded(backup_path, contents, WindowsBackup::default());
        let mut i: usize = 0;
        while i < folders.len()
            invariant
                cache.wf(),
                i <= folders@.len(),
                cache.backup_path == backup_path,
                cache.last_saved_backup_contents == contents,
                cache.next_id() == 1,
                cache.empty_view().len() == 0,
                cache.folders_view() == without_repeats(folder_records(folders@.subrange(0, i as int))),
            decreases folders@.len() - i,
        {
            let ghost pre = folders@.subrange(0, i as int + 1);
            assert(folder_records(pre).drop_last() =~= folder_records(folders@.subrange(0, i as int)));
            let info = folders[i].clone();
            let keep = match &info.folder {
                Some(f) => cache.find_folder(f.as_str()).is_none(),
                None => true,
            };
            if keep {
                let ghost before = cache.folders_view();
                cache.backups.folders.push(info);
                proof {
                    let v = cache.folders_view();
                    assert(v =~= before.push(info@));
                    lemma_push_keeps_unique(before, info@);
                }
            }
            i = i + 1;
        }
        assert(folders@.subrange(0, folders@.len() as int) =~= folders@);
        let mut i: usize = 0;
        while i < empty_windows.len()
            invariant
                cache.wf(),
                i <= empty_windows@.len(),
                cache.backup_path == backup_path,
                cache.last_saved_backup_contents == contents,
                cache.next_id() == 1,
                cache.folders_view() == without_repeats(folder_records(folders@)),
                cache.empty_view() == without_repeats(empty_records(empty_windows@.subrange(0, i as int))),
            decreases empty_windows@.len() - i,
        {
            let ghost pre = empty_windows@.subrange(0, i as int + 1);
            assert(empty_records(pre).drop_last() =~= empty_records(empty_windows@.subrange(0, i as int)));
            let info = empty_windows[i].clone();
            let keep = match &info.backup_folder {
                Some(f) => cache.find_empty(f.as_str()).is_none(),
                None => true,
            };
            if keep {
                let ghost before = cache.empty_view();
                cache.backups.empty_windows.push(info);
                proof {
                    let v = cache.empty_view();
                    assert(v =~= before.push(info@));
                    lemma_push_keeps_unique(before, info@);
                }
            }
            i = i + 1;
        }
        assert(empty_windows@.subrange(0, empty_windows@.len() as int) =~= empty_windows@);
        cache
    }

    /// Position of the folder backup for `folder`.
    fn find_folder(&self, folder: &str) -> (r: Option<usize>)
        ensures
            match r {
                Some(i) => i < self.folders_view().len() && self.folders_view()[i as int].1 == Some(folder@),
                None => !has_backup(self.folders_view(), folder@),
            },
    {
        let mut i: usize = 0;
        while i < self.backups.folders.len()
            invariant
                i <= self.folders_view().len(),
                self.folders_view().len() == self.backups.folders@.len(),
                forall|j: int| 0 <= j < i ==> #[trigger] self.folders_view()[j].1 != Some(folder@),
            decreases self.backups.folders@.len() - i,
        {
            match &self.backups.folders[i].folder {
                Some(f) => {
                    if same_text(f.as_str(), folder) {
                        return Some(i);
                    }
                },
                None => {},
            }
            i = i + 1;
        }
        None
    }

    /// Position of the empty window backup with id `id`.
    fn find_empty(&self, id: &str) -> (r: Option<usize>)
        ensures
            match r {
                Some(i) => i < self.empty_view().len() && self.empty_view()[i as int].1 == Some(id@),
                None => !has_backup(self.empty_view(), id@),
            },
    {
        let mut i: usize = 0;
        while i < self.backups.empty_windows.len()
            invariant
                i <= self.empty_view().len(),
                self.empty_view().len() == self.backups.empty_windows@.len(),
                forall|j: int| 0 <= j < i ==> #[trigger] self.empty_view()[j].1 != Some(id@),
            decreases self.backups.empty_windows@.len() - i,
        {
            match &self.backups.empty_windows[i].backup_folder {
                Some(f) => {
                    if same_text(f.as_str(), id) {
                        return Some(i);
                    }
                },
                None => {},
            }
            i = i + 1;
        }
        None
    }

    /// Records that `window` owns the backup of `folder`, unless the folder
    /// already has one, and returns the folder's staging location.
    pub fn add_folder_backup(&mut self, folder: &str, window: &str) -> (r: String)
        requires
            old(self).wf(),
        ensures
            final(self).wf(),
            r@ == folder_staging(old(self).backup_path@, folder@),
            final(self).folders_view() == with_backup(old(self).folders_view(), folder@, window@),
            final(self).empty_view() == old(self).empty_view(),
            final(self).backup_path == old(self).backup_path,
            final(self).next_id() == old(self).next_id(),
            final(self).last_saved_backup_contents == old(self).last_saved_backup_contents,
    {
        if self.find_folder(folder).is_none() {
            let info = FolderBackupInfo { window: window.to_owned(), folder: Some(folder.to_owned()) };
            self.backups.folders.push(info);
            proof {
                let v = self.folders_view();
                assert(v =~= old(self).folders_view().push((window@, Some(folder@))));
                assert forall|i: int, j: int|
                    0 <= i < v.len() && 0 <= j < v.len() && i != j && (#[trigger] v[i]).1 is Some
                    implies v[i].1 != (#[trigger] v[j]).1 by {
                    let n = old(self).folders_view().len() as int;
                    if i == n {
                        assert(old(self).folders_view()[j].1 != Some(folder@));
                    } else if j == n {
                        assert(old(self).folders_view()[i].1 != Some(folder@));
                    }
                }
            }
        }
        self.get_folder_hash_path(folder)
    }

    /// The staging location of `folder`'s backup.
    fn get_folder_hash_path(&self, folder: &str) -> (r: String)
        ensures
            r@ == folder_staging(self.backup_path@, folder@),
    {
        let hash = self.get_folder_hash(folder);
        self.get_backup_path(&hash)
    }

    /// Records that `window` owns the backup of an empty workspace and
    /// returns its staging location. The workspace is `backup_folder_candidate`
    /// when given, otherwise a new id; a record is added only when none is
    /// there for that workspace.
    pub fn add_empty_window_backup(&mut self, backup_folder_candidate: &Option<String>, window: &str) -> (r: String)
        requires
            old(self).wf(),
        ensures
            final(self).wf(),
            ({
                let id = match backup_folder_candidate {
                    Some(c) => c@,
                    None => decimal(old(self).minted_id() as nat),
                };
                &&& r@ == joined(old(self).backup_path@, id)
                &&& final(self).empty_view() == with_backup(old(self).empty_view(), id, window@)
            }),
            backup_folder_candidate is Some ==> final(self).next_id() == old(self).next_id(),
            backup_folder_candidate is None ==> final(self).next_id() == next_after(old(self).minted_id()),
            final(self).folders_view() == old(self).folders_view(),
            final(self).backup_path == old(self).backup_path,
            final(self).last_saved_backup_contents == old(self).last_saved_backup_contents,
    {
        let backup_folder = match backup_folder_candidate {
            Some(folder) => folder.clone(),
            None => self.get_random_empty_window_id(),
        };
        if self.find_empty(backup_folder.as_str()).is_none() {
            let info = EmptyWindowBackupInfo { backup_folder: Some(backup_folder.clone()), window: window.to_owned() };
            let ghost before = self.empty_view();
            self.backups.empty_windows.push(info);
            proof {
                let v = self.empty_view();
                assert(v =~= before.push((window@, Some(backup_folder@))));
                assert forall|i: int, j: int|
                    0 <= i < v.len() && 0 <= j < v.len() && i != j && (#[trigger] v[i]).1 is Some
                    implies v[i].1 != (#[trigger] v[j]).1 by {
                    let n = before.len() as int;
                    if i == n {
                        assert(before[j].1 != Some(backup_folder@));
                    } else if j == n {
                        assert(before[i].1 != Some(backup_folder@));
                    }
                }
            }
        }
        self.get_backup_path(&backup_folder)
    }

    /// The id that the next new empty window gets.
    pub open spec fn minted_id(&self) -> u64 {
        first_free(self.empty_view(), self.next_id())
    }

    /// A new id for an empty window: the first number from the counter on
    /// that no empty window backup records; the counter moves past it.
    pub fn get_random_empty_window_id(&mut self) -> (r: String)
        ensures
            r@ == decimal(old(self).minted_id() as nat),
            final(self).next_id() == next_after(old(self).minted_id()),
            final(self).backups == old(self).backups,
            final(self).backup_path == old(self).backup_path,
            final(self).last_saved_backup_contents == old(self).last_saved_backup_contents,
    {
        let mut id = self.next_empty_window_id;
        let mut text = decimal_string(id);
        loop
            invariant
                text@ == decimal(id as nat),
                first_free(self.empty_view(), id) == old(self).minted_id(),
                *self == *old(self),
            ensures
                text@ == decimal(id as nat),
                id == old(self).minted_id(),
                *self == *old(self),
            decreases u64::MAX - id,
        {
            if id == u64::MAX || self.find_empty(text.as_str()).is_none() {
                assert(first_free(self.empty_view(), id) == id);
                break;
            }
            assert(first_free(self.empty_view(), id) == first_free(self.empty_view(), (id + 1) as u64));
            id = id + 1;
            text = decimal_string(id);
        }
        self.next_empty_window_id = if id == u64::MAX { 0 } else { id + 1 };
        text
    }

    /// The name under which a folder's backup is staged: its hash in decimal.
    pub fn get_folder_hash(&self, folder: &str) -> (r: String)
        ensures
            r@ == decimal(folder_hash_of(folder@) as nat),
    {
        decimal_string(hash_folder(folder))
    }

    /// `folder` placed under the backup root.
    pub fn get_backup_path(&self, folder: &String) -> (r: String)
        ensures
            r@ == joined(self.backup_path@, folder@),
    {
        join_path(&self.backup_path, folder)
    }

    /// The empty windows that have a backup, to restore on the next start.
    pub fn list_empty_window_backups(&self) -> (r: Vec<EmptyWindowBackupInfo>)
        ensures
            r@ == self.backups.empty_windows@,
    {
        let mut r: Vec<EmptyWindowBackupInfo> = Vec::new();
        let mut i: usize = 0;
        while i < self.backups.empty_windows.len()
            invariant
                i <= self.backups.empty_windows@.len(),
                r@ == self.backups.empty_windows@.subrange(0, i as int),
            decreases self.backups.empty_windows@.len() - i,
        {
            r.push(self.backups.empty_windows[i].clone());
            i = i + 1;
        }
        assert(r@ =~= self.backups.empty_windows@);
        r
    }

    /// Whether saving the document, serialised as `serialized`, has to write:
    /// only when the text differs from what was last written.
    pub fn needs_save(&self, serialized: &String) -> (r: bool)
        ensures
            r == self.needs_save_spec(serialized@),
    {
        !same_text(serialized.as_str(), self.last_saved_backup_contents.as_str())
    }

    /// Records that `serialized` was written to disk.
    pub fn mark_saved(&mut self, serialized: String)
        ensures
            final(self).last_saved_backup_contents == serialized,
            final(self).backups == old(self).backups,
            final(self).backup_path == old(self).backup_path,
            final(self).next_id() == old(self).next_id(),
    {
        self.last_saved_backup_contents = serialized;
    }
}

/// Number of entries kept in each recently opened list.
pub const MAX_TOTAL_RECENT_ENTRIES: usize = 500;

/// A recently opened file or folder.
pub struct RecentPath {
    pub label: Option<String>,
    pub folder: Option<String>,
    pub file: Option<String>,
    pub window: Option<String>,
}

/// A recently opened file: its label, path and owning window.
pub struct RecentFile {
    pub label: String,
    pub file: String,
    pub window: String,
}

impl View for RecentFile {
    type V = RecentEntry;

    open spec fn view(&self) -> RecentEntry {
        (self.label@, self.file@, self.window@)
    }
}

/// A recently opened folder: its label, path and owning window.
pub struct RecentFolder {
    pub label: String,
    pub folder: String,
    pub window: String,
}

impl View for RecentFolder {
    type V = RecentEntry;

    open spec fn view(&self) -> RecentEntry {
        (self.label@, self.folder@, self.window@)
    }
}

/// A recents entry seen as (label, path, owning window).
pub type RecentEntry = (Seq<char>, Seq<char>, Seq<char>);

/// The recently opened files and folders, oldest first.
pub struct RecentlyOpened {
    pub files: Vec<RecentFile>,
    pub folders: Vec<RecentFolder>,
}

impl Default for RecentlyOpened {
    fn default() -> (r: Self)
        ensures
            r.files@.len() == 0,
            r.folders@.len() == 0,
    {
        RecentlyOpened { files: Vec::new(), folders: Vec::new() }
    }
}

/// The text, or nothing when absent.
pub open spec fn text_or_empty(o: Option<String>) -> Seq<char> {
    match o {
        Some(s) => s@,
        None => Seq::empty(),
    }
}

/// The folder entries that a list of opened paths adds, in order.
pub open spec fn recent_folders_of(s: Seq<PathToOpen>) -> Seq<RecentEntry>
    decreases s.len(),
{
    if s.len() == 0 {
        Seq::empty()
    } else {
        let p = s.last();
        let rest = recent_folders_of(s.drop_last());
        if p.folder is Some {
            rest.push((text_or_empty(p.label), p.folder->0@, text_or_empty(p.window)))
        } else {
            rest
        }
    }
}

/// The file entries that a list of opened paths adds, in order.
pub open spec fn recent_files_of(s: Seq<PathToOpen>) -> Seq<RecentEntry>
    decreases s.len(),
{
    if s.len() == 0 {
        Seq::empty()
    } else {
        let p = s.last();
        let rest = recent_files_of(s.drop_last());
        if p.folder is None && p.file is Some {
            rest.push((text_or_empty(p.label), p.file->0@, text_or_empty(p.window)))
        } else {
            rest
        }
    }
}

/// The last `n` entries of `s`, or all of them when there are fewer.
pub open spec fn keep_last<T>(s: Seq<T>, n: int) -> Seq<T> {
    if s.len() > n {
        s.subrange(s.len() - n, s.len() as int)
    } else {
        s
    }
}

/// The recents cache: the history in memory, the file it is saved to, and
/// the text that was last written there.
pub struct InnerWindowsRecentsCache {
    pub recents_path: String,
    pub last_saved_recents_contents: String,
    pub recents: RecentlyOpened,
}

/// Keeps the last `MAX_TOTAL_RECENT_ENTRIES` entries.
fn cap_entries<T>(v: &mut Vec<T>)
    ensures
        final(v)@ == keep_last(old(v)@, MAX_TOTAL_RECENT_ENTRIES as int),
{
    let n = v.len();
    if n > MAX_TOTAL_RECENT_ENTRIES {
        let kept = v.split_off(n - MAX_TOTAL_RECENT_ENTRIES);
        *v = kept;
    }
}

impl InnerWindowsRecentsCache {
    pub open spec fn files_view(&self) -> Seq<RecentEntry> {
        self.recents.files@.map_values(|e: RecentFile| e@)
    }

    pub open spec fn folders_view(&self) -> Seq<RecentEntry> {
        self.recents.folders@.map_values(|e: RecentFolder| e@)
    }

    /// Whether a save of the document serialised as `serialized` has to write.
    pub open spec fn needs_save_spec(&self, serialized: Seq<char>) -> bool {
        serialized != self.last_saved_recents_contents@
    }

    /// A cache over a loaded history; `contents` is the text it was read from.
    pub fn from_loaded(recents_path: String, contents: String, recents: RecentlyOpened) -> (r: Self)
        ensures
            r.recents_path == recents_path,
            r.last_saved_recents_contents == contents,
            r.recents == recents,
    {
        InnerWindowsRecentsCache { recents_path, last_saved_recents_contents: contents, recents }
    }

    /// Appends the opened folders and files to their lists (a path with a
    /// folder counts as a folder; one with neither is skipped), then keeps
    /// the `MAX_TOTAL_RECENT_ENTRIES` newest entries of each list. A missing
    /// label or window is recorded as empty text.
    pub fn add_recents(&mut self, recents: Vec<PathToOpen>) -> (r: Result<(), Error>)
        ensures
            r is Ok,
            final(self).folders_view() == keep_last(
                old(self).folders_view() + recent_folders_of(recents@),
                MAX_TOTAL_RECENT_ENTRIES as int,
            ),
            final(self).files_view() == keep_last(
                old(self).files_view() + recent_files_of(recents@),
                MAX_TOTAL_RECENT_ENTRIES as int,
            ),
            final(self).recents_path == old(self).recents_path,
            final(self).last_saved_recents_contents == old(self).last_saved_recents_contents,
    {
        let mut i: usize = 0;
        while i < recents.len()
            invariant
                i <= recents@.len(),
                self.folders_view() == old(self).folders_view() + recent_folders_of(recents@.subrange(0, i as int)),
                self.files_view() == old(self).files_view() + recent_files_of(recents@.subrange(0, i as int)),
                self.recents_path == old(self).recents_path,
                self.last_saved_recents_contents == old(self).last_saved_recents_contents,
            decreases recents@.len() - i,
        {
            let recent = &recents[i];
            let ghost pre = recents@.subrange(0, i as int + 1);
            assert(pre.drop_last() =~= recents@.subrange(0, i as int));
            assert(pre.last() == *recent);
            let label = match &recent.label {
                Some(l) => l.clone(),
                None => String::new(),
            };
            let window = match &recent.window {
                Some(w) => w.clone(),
                None => String::new(),
            };
            match &recent.folder {
                Some(folder) => {
                    let ghost before = self.folders_view();
                    self.recents.folders.push(RecentFolder { label, folder: folder.clone(), window });
                    assert(self.folders_view() =~= before.push(self.recents.folders@.last()@));
                    assert(self.folders_view() =~= old(self).folders_view() + recent_folders_of(pre));
                },
                None => {
                    match &recent.file {
                        Some(file) => {
                            let ghost before = self.files_view();
                            self.recents.files.push(RecentFile { label, file: file.clone(), window });
                            assert(self.files_view() =~= before.push(self.recents.files@.last()@));
                            assert(self.files_view() =~= old(self).files_view() + recent_files_of(pre));
                        },
                        None => {},
                    }
                },
            }
            i = i + 1;
        }
        assert(recents@.subrange(0, recents@.len() as int) =~= recents@);
        let ghost folders_before = self.recents.folders@;
        cap_entries(&mut self.recents.folders);
        assert(self.folders_view() =~= keep_last(folders_before, MAX_TOTAL_RECENT_ENTRIES as int).map_values(|e: RecentFolder| e@));
        let ghost files_before = self.recents.files@;
        cap_entries(&mut self.recents.files);
        assert(self.files_view() =~= keep_last(files_before, MAX_TOTAL_RECENT_ENTRIES as int).map_values(|e: RecentFile| e@));
        Ok(())
    }

    /// Adds one opened path to the history.
    pub fn add_recent(&mut self, path: PathToOpen) -> (r: Result<(), Error>)
        ensures
            r is Ok,
            final(self).folders_view() == keep_last(
                old(self).folders_view() + recent_folders_of(seq![path]),
                MAX_TOTAL_RECENT_ENTRIES as int,
            ),
            final(self).files_view() == keep_last(
                old(self).files_view() + recent_files_of(seq![path]),
                MAX_TOTAL_RECENT_ENTRIES as int,
            ),
            final(self).recents_path == old(self).recents_path,
            final(self).last_saved_recents_contents == old(self).last_saved_recents_contents,
    {
        let v = vec![path];
        assert(v@ =~= seq![path]);
        self.add_recents(v)
    }

    /// Empties both lists.
    pub fn clear(&mut self)
        ensures
            final(self).folders_view().len() == 0,
            final(self).files_view().len() == 0,
            final(self).recents_path == old(self).recents_path,
            final(self).last_saved_recents_contents == old(self).last_saved_recents_contents,
    {
        self.recents.folders = Vec::new();
        self.recents.files = Vec::new();
    }

    /// Whether saving the history, serialised as `serialized`, has to write:
    /// only when the text differs from what was last written.
    pub fn needs_save(&self, serialized: &String) -> (r: bool)
        ensures
            r == self.needs_save_spec(serialized@),
    {
        !same_text(serialized.as_str(), self.last_saved_recents_contents.as_str())
    }

    /// Records that `serialized` was written to disk.
    pub fn mark_saved(&mut self, serialized: String)
        ensures
            final(self).last_saved_recents_contents == serialized,
            final(self).recents == old(self).recents,
            final(self).recents_path == old(self).recents_path,
    {
        self.last_saved_recents_contents = serialized;
    }
}

/// The lock invariant of the window state cache: it is well formed.
pub struct StateCacheWf {}

impl vstd::rwlock::RwLockPredicate<InnerWindowsStateCache> for StateCacheWf {
    open spec fn inv(self, v: InnerWindowsStateCache) -> bool {
        v.wf()
    }
}

/// The window state cache behind a reader/writer lock: readers share it,
/// and each change holds it exclusively from reading to writing back.
pub struct WindowsStateCache(pub vstd::rwlock::RwLock<InnerWindowsStateCache, StateCacheWf>);

impl WindowsStateCache {
    pub fn new(inner: InnerWindowsStateCache) -> (r: Self)
        requires
            inner.wf(),
    {
        WindowsStateCache(vstd::rwlock::RwLock::new(inner, Ghost(StateCacheWf {})))
    }

    /// The state of the window with this label, as the cache held it under
    /// the lock; the second result is the cache that was seen.
    pub fn get_item(&self, key: &str) -> (r: (Option<WindowState>, Ghost<InnerWindowsStateCache>))
        ensures
            r.1@.wf(),
            r.0 is None <==> !r.1@.state_map().contains_key(key@),
            r.0 is Some ==> r.0->0.same_as(&r.1@.state_map()[key@]),
    {
        let handle = self.0.acquire_read();
        let seen = Ghost(handle.view());
        let r = handle.borrow().get_item(key);
        handle.release_read();
        (r, seen)
    }

    /// Sets the state of the window with this label; the second result is
    /// the cache before and after the change, as held under the lock.
    pub fn set_item(&self, key: &str, data: WindowState) -> (r: (
        Result<(), Error>,
        Ghost<(InnerWindowsStateCache, InnerWindowsStateCache)>,
    ))
        ensures
            r.0 is Ok,
            r.1@.0.wf(),
            r.1@.1.state_map() == r.1@.0.state_map().insert(key@, data),
    {
        let (mut cache, handle) = self.0.acquire_write();
        let ghost before = cache;
        let r = cache.set_item(key, data);
        let ghost after = cache;
        handle.release_write(cache);
        (r, Ghost((before, after)))
    }

    /// Removes the window with this label; an unknown label is an error.
    /// The second result is the cache before and after, as held under the lock.
    pub fn remove_item(&self, key: &str) -> (r: (
        Result<(), Error>,
        Ghost<(InnerWindowsStateCache, InnerWindowsStateCache)>,
    ))
        ensures
            r.1@.0.wf(),
            r.0 is Ok <==> r.1@.0.state_map().contains_key(key@),
            r.0 is Err ==> r.0->Err_0.is_not_found_for(key@),
            r.1@.1.state_map() == r.1@.0.state_map().remove(key@),
    {
        let (mut cache, handle) = self.0.acquire_write();
        let ghost before = cache;
        let r = cache.remove_item(key);
        let ghost after = cache;
        handle.release_write(cache);
        (r, Ghost((before, after)))
    }
}

/// The lock invariant of the backup cache: it is well formed and stages
/// backups under `root`.
pub struct BackupCacheWf {
    pub root: Ghost<Seq<char>>,
}

impl vstd::rwlock::RwLockPredicate<InnerWindowsBackupCache> for BackupCacheWf {
    open spec fn inv(self, v: InnerWindowsBackupCache) -> bool {
        v.wf() && v.backup_path@ == self.root@
    }
}

/// The backup cache behind a reader/writer lock.
pub struct WindowsBackupCache(pub vstd::rwlock::RwLock<InnerWindowsBackupCache, BackupCacheWf>);

impl WindowsBackupCache {
    pub fn new(inner: InnerWindowsBackupCache) -> (r: Self)
        requires
            inner.wf(),
        ensures
            r.root() == inner.backup_path@,
    {
        let ghost root = inner.backup_path@;
        WindowsBackupCache(vstd::rwlock::RwLock::new(inner, Ghost(BackupCacheWf { root: Ghost(root) })))
    }

    /// The directory backups are staged under.
    pub open spec fn root(&self) -> Seq<char> {
        self.0.pred().root@
    }

    /// Records that `window` owns the backup of `folder`, unless it has one,
    /// and returns the folder's staging location; the second result is the
    /// cache before and after, as held under the lock.
    pub fn add_folder_backup(&self, folder: &str, window: &str) -> (r: (
        String,
        Ghost<(InnerWindowsBackupCache, InnerWindowsBackupCache)>,
    ))
        ensures
            r.0@ == folder_staging(self.root(), folder@),
            r.1@.1.folders_view() == with_backup(r.1@.0.folders_view(), folder@, window@),
            r.1@.1.empty_view() == r.1@.0.empty_view(),
    {
        let (mut cache, handle) = self.0.acquire_write();
        let ghost before = cache;
        let r = cache.add_folder_backup(folder, window);
        let ghost after = cache;
        handle.release_write(cache);
        (r, Ghost((before, after)))
    }

    /// Records that `window` owns the backup of an empty workspace and
    /// returns its staging location.
    pub fn add_empty_window_backup(&self, backup_folder_candidate: &Option<String>, window: &str) -> (r: (
        String,
        Ghost<(InnerWindowsBackupCache, InnerWindowsBackupCache)>,
    ))
        ensures
            ({
                let id = match backup_folder_candidate {
                    Some(c) => c@,
                    None => decimal(r.1@.0.minted_id() as nat),
                };
                &&& r.0@ == joined(self.root(), id)
                &&& r.1@.1.empty_view() == with_backup(r.1@.0.empty_view(), id, window@)
                &&& r.1@.1.folders_view() == r.1@.0.folders_view()
            }),
    {
        let (mut cache, handle) = self.0.acquire_write();
        let ghost before = cache;
        let r = cache.add_empty_window_backup(backup_folder_candidate, window);
        let ghost after = cache;
        handle.release_write(cache);
        (r, Ghost((before, after)))
    }

    /// The empty windows that have a backup; the second result is the cache
    /// seen under the lock.
    pub fn list_empty_window_backups(&self) -> (r: (Vec<EmptyWindowBackupInfo>, Ghost<InnerWindowsBackupCache>))
        ensures
            r.0@ == r.1@.backups.empty_windows@,
            r.1@.backup_path@ == self.root(),
    {
        let handle = self.0.acquire_read();
        let seen = Ghost(handle.view());
        let r = handle.borrow().list_empty_window_backups();
        handle.release_read();
        (r, seen)
    }
}

/// The lock invariant of the recents cache: none beyond its type.
pub struct RecentsCacheWf {}

impl vstd::rwlock::RwLockPredicate<InnerWindowsRecentsCache> for RecentsCacheWf {
    open spec fn inv(self, v: InnerWindowsRecentsCache) -> bool {
        true
    }
}

/// The recents cache behind a reader/writer lock.
pub struct WindowsRecentsCache(pub vstd::rwlock::RwLock<InnerWindowsRecentsCache, RecentsCacheWf>);

impl WindowsRecentsCache {
    pub fn new(inner: InnerWindowsRecentsCache) -> (r: Self) {
        WindowsRecentsCache(vstd::rwlock::RwLock::new(inner, Ghost(RecentsCacheWf {})))
    }

    /// Appends opened paths to the history, keeping the newest entries; the
    /// second result is the history before and after, as held under the lock.
    pub fn add_recents(&self, recents: Vec<PathToOpen>) -> (r: (
        Result<(), Error>,
        Ghost<(InnerWindowsRecentsCache, InnerWindowsRecentsCache)>,
    ))
        ensures
            r.0 is Ok,
            r.1@.1.folders_view() == keep_last(
                r.1@.0.folders_view() + recent_folders_of(recents@),
                MAX_TOTAL_RECENT_ENTRIES as int,
            ),
            r.1@.1.files_view() == keep_last(
                r.1@.0.files_view() + recent_files_of(recents@),
                MAX_TOTAL_RECENT_ENTRIES as int,
            ),
    {
        let (mut cache, handle) = self.0.acquire_write();
        let ghost before = cache;
        let r = cache.add_recents(recents);
        let ghost after = cache;
        handle.release_write(cache);
        (r, Ghost((before, after)))
    }

    /// Empties the history; the result is the history left, as held under the lock.
    pub fn clear(&self) -> (r: Ghost<InnerWindowsRecentsCache>)
        ensures
            r@.folders_view().len() == 0,
            r@.files_view().len() == 0,
    {
        let (mut cache, handle) = self.0.acquire_write();
        cache.clear();
        let ghost after = cache;
        handle.release_write(cache);
        Ghost(after)
    }
}

/// Asking twice for the backup of the same folder changes nothing the second
/// time (the staging location, `folder_staging`, depends on the folder
/// alone), and the folder has exactly one record afterwards.
pub proof fn lemma_folder_backup_idempotent(
    v: Seq<BackupRecord>,
    folder: Seq<char>,
    first_window: Seq<char>,
    second_window: Seq<char>,
)
    requires
        backups_unique(v),
    ensures
        with_backup(with_backup(v, folder, first_window), folder, second_window) == with_backup(
            v,
            folder,
            first_window,
        ),
        backups_unique(with_backup(v, folder, first_window)),
        has_backup(with_backup(v, folder, first_window), folder),
        forall|i: int, j: int|
            0 <= i < with_backup(v, folder, first_window).len() && 0 <= j < with_backup(
                v,
                folder,
                first_window,
            ).len() && (#[trigger] with_backup(v, folder, first_window)[i]).1 == Some(folder) && (
            #[trigger] with_backup(v, folder, first_window)[j]).1 == Some(folder) ==> i == j,
{
    let w = with_backup(v, folder, first_window);
    if !has_backup(v, folder) {
        assert(w[v.len() as int].1 == Some(folder));
        assert forall|i: int, j: int|
            0 <= i < w.len() && 0 <= j < w.len() && i != j && (#[trigger] w[i]).1 is Some
            implies w[i].1 != (#[trigger] w[j]).1 by {
            if i == v.len() {
                assert(v[j].1 != Some(folder));
            } else if j == v.len() {
                assert(v[i].1 != Some(folder));
            } else {
                assert(w[i] == v[i] && w[j] == v[j]);
            }
        }
    }
    assert(has_backup(w, folder));
}

/// Two requests for an empty window backup without a candidate, the first
/// made on records `v` with counter `next` and the second on records `w`:
/// the second id is larger than the first, their staging locations differ,
/// and no record holds the second id, so the second request adds one.
/// (At the largest counter value the counter wraps, so the first id must
/// be below it.)
pub proof fn lemma_new_empty_window_ids_increase(
    v: Seq<BackupRecord>,
    w: Seq<BackupRecord>,
    next: u64,
    root: Seq<char>,
    window: Seq<char>,
)
    requires
        first_free(v, next) < u64::MAX,
    ensures
        ({
            let first = first_free(v, next);
            let second = first_free(w, next_after(first));
            &&& second > first
            &&& joined(root, decimal(first as nat)) != joined(root, decimal(second as nat))
            &&& second < u64::MAX ==> with_backup(w, decimal(second as nat), window).len() == w.len() + 1
        }),
{
    let first = first_free(v, next);
    let second = first_free(w, next_after(first));
    lemma_first_free(w, next_after(first));
    if joined(root, decimal(first as nat)) == joined(root, decimal(second as nat)) {
        crate::text::lemma_decimal_relative(first as nat);
        crate::text::lemma_decimal_relative(second as nat);
        lemma_joined_injective(root, decimal(first as nat), decimal(second as nat));
        lemma_decimal_injective(first as nat, second as nat);
    }
}

/// A request for an empty window backup whose id no record holds adds
/// exactly one record, for that id.
pub proof fn lemma_new_empty_window_adds_record(v: Seq<BackupRecord>, id: Seq<char>, window: Seq<char>)
    requires
        !has_backup(v, id),
    ensures
        with_backup(v, id, window).len() == v.len() + 1,
        with_backup(v, id, window).last() == (window, Some(id)),
{
}

/// Two requests for an empty window backup with the same candidate add one
/// record; both get the candidate's staging location.
pub proof fn lemma_empty_window_backup_idempotent(
    v: Seq<BackupRecord>,
    candidate: Seq<char>,
    first_window: Seq<char>,
    second_window: Seq<char>,
)
    requires
        backups_unique(v),
    ensures
        with_backup(with_backup(v, candidate, first_window), candidate, second_window) == with_backup(
            v,
            candidate,
            first_window,
        ),
        has_backup(with_backup(v, candidate, first_window), candidate),
{
    lemma_folder_backup_idempotent(v, candidate, first_window, second_window);
}

/// After more entries than the cap have been appended to a recents list,
/// exactly the cap remain, and they are the newest of those appended.
pub proof fn lemma_recents_keep_newest(before: Seq<RecentEntry>, appended: Seq<RecentEntry>)
    requires
        appended.len() > MAX_TOTAL_RECENT_ENTRIES,
    ensures
        keep_last(before + appended, MAX_TOTAL_RECENT_ENTRIES as int).len() == MAX_TOTAL_RECENT_ENTRIES,
        keep_last(before + appended, MAX_TOTAL_RECENT_ENTRIES as int) == appended.subrange(
            appended.len() - MAX_TOTAL_RECENT_ENTRIES,
            appended.len() as int,
        ),
{
    let all = before + appended;
    let m = MAX_TOTAL_RECENT_ENTRIES as int;
    assert(all.subrange(all.len() - m, all.len() as int) =~= appended.subrange(
        appended.len() - m,
        appended.len() as int,
    ));
}

/// A save whose text equals the text last written needs no write, for each
/// of the three caches; and setting a window to the state it already has
/// leaves the window states as they were, so their text does not change.
pub proof fn lemma_unchanged_text_needs_no_write(
    states: InnerWindowsStateCache,
    backups: InnerWindowsBackupCache,
    recents: InnerWindowsRecentsCache,
    label: Seq<char>,
)
    ensures
        !states.needs_save_spec(states.last_saved_storage_contents@),
        !backups.needs_save_spec(backups.last_saved_backup_contents@),
        !recents.needs_save_spec(recents.last_saved_recents_contents@),
        states.state_map().contains_key(label) ==> states.state_map().insert(
            label,
            states.state_map()[label],
        ) == states.state_map(),
{
    if states.state_map().contains_key(label) {
        assert(states.state_map().insert(label, states.state_map()[label]) =~= states.state_map());
    }
}

} // verus!
