//! Requests exchanged with a server: lookups, popups and texthooker
//! sentences.

use vstd::prelude::*;

use crate::record::RecordKind;

verus! {

/// A lookup: the context text, and the byte index of the text to look up.
#[derive(Debug, Clone)]
pub struct Lookup {
    pub context: String,
    pub cursor: usize,
}

/// Request to show a popup over a target window.
#[derive(Debug)]
pub struct PopupRequest {
    pub target_window: WindowFilter,
    pub origin: (i32, i32),
    pub anchor: PopupAnchor,
    pub lookup: Lookup,
}

/// Specifies a window on the user's window manager.
#[derive(Debug, Clone)]
pub struct WindowFilter {
    pub id: Option<u64>,
    pub title: Option<String>,
    pub wm_class: Option<String>,
}

/// Corner a popup is relative to.
#[derive(Debug, Clone, Copy, PartialEq, Eq, Hash, Structural)]
pub enum PopupAnchor {
    TopLeft,
    TopCenter,
    TopRight,
    CenterLeft,
    CenterRight,
    BottomLeft,
    BottomCenter,
    BottomRight,
}

/// Sentence forwarded from a texthooker.
#[derive(Debug, Clone, Default)]
pub struct TexthookerSentence {
    pub process_path: String,
    pub sentence: String,
}

/// A request to the server.
#[derive(Debug, Clone)]
pub enum Request {
    Lookup { lookup: Lookup, record_kinds: Vec<RecordKind> },
}

} // verus!
