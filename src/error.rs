//! Errors that can happen during window management.
use vstd::prelude::*;

verus! {

/// Errors that can happen during window management.
#[derive(Debug)]
#[non_exhaustive]
pub enum Error {
    /// No cached window state has this label.
    WindowStateWithLabelNotFound(String),
    /// A cache's lock could not be taken.
    RwLock(String),
    /// Reading or writing a persisted document failed.
    Io(String),
    /// The windowing host refused or failed to create a window.
    Tauri(String),
    /// The windowing host's helper API failed.
    TauriApi(String),
    /// Encoding or decoding a document failed.
    SerdeJson(String),
    /// An open request ended without any window to return.
    NoWindowCreated,
}

impl Error {
    /// The error says that no window state has label `label`.
    pub open spec fn is_not_found_for(&self, label: Seq<char>) -> bool {
        match self {
            Error::WindowStateWithLabelNotFound(l) => l@ == label,
            _ => false,
        }
    }

    /// The detail carried by the error, if any.
    pub open spec fn detail_spec(&self) -> Seq<char> {
        match self {
            Error::WindowStateWithLabelNotFound(s) => s@,
            Error::RwLock(s) => s@,
            Error::Io(s) => s@,
            Error::Tauri(s) => s@,
            Error::TauriApi(s) => s@,
            Error::SerdeJson(s) => s@,
            Error::NoWindowCreated => Seq::empty(),
        }
    }

    /// The detail carried by the error; empty for `NoWindowCreated`.
    pub fn detail(&self) -> (r: String)
        ensures
            r@ == self.detail_spec(),
    {
        match self {
            Error::WindowStateWithLabelNotFound(s) => s.clone(),
            Error::RwLock(s) => s.clone(),
            Error::Io(s) => s.clone(),
            Error::Tauri(s) => s.clone(),
            Error::TauriApi(s) => s.clone(),
            Error::SerdeJson(s) => s.clone(),
            Error::NoWindowCreated => String::new(),
        }
    }
}

} // verus!
