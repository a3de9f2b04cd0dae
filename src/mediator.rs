//! The application's coordinators, whose work is done by the host around
//! this library.
use vstd::prelude::*;

verus! {

/// Coordinates capture, reading and lookup.
#[derive(Clone, Copy, Debug, PartialEq, Eq, Structural)]
pub struct AppMediator {}

impl AppMediator {
    pub fn new() -> (r: AppMediator)
        ensures
            r == (AppMediator {}),
    {
        AppMediator {}
    }

    /// Called when the user asks for the dictionary view; nothing needs
    /// preparing yet.
    pub fn open_dictionary_ui(&self) {
    }
}

/// Opens the application's windows.
#[derive(Clone, Copy, Debug, PartialEq, Eq, Structural)]
pub struct WindowPresenter {}

impl WindowPresenter {
    pub fn new() -> (r: WindowPresenter)
        ensures
            r == (WindowPresenter {}),
    {
        WindowPresenter {}
    }
}

/// The text shown by the reading overlay.
#[derive(Clone, Debug, PartialEq, Eq)]
pub struct OCROverlayState {
    pub text: String,
}

impl Default for OCROverlayState {
    fn default() -> (r: OCROverlayState)
        ensures
            r.text@ == Seq::<char>::empty(),
    {
        OCROverlayState { text: String::new() }
    }
}

} // verus!
