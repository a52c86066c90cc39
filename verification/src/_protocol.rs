//! Messages a client sends to a server over a WebSocket, and the popup
//! replies.

use vstd::prelude::*;

use crate::hook::HookSentence;
use crate::record::RecordKind;

verus! {

/// Default WebSocket port which a server listens on.
pub const DEFAULT_WS_PORT: u16 = 9518;

/// Client-to-server message.
#[derive(Debug)]
pub enum FromClient {
    HookSentence(HookSentence),
    Lookup(LookupRequest),
    ShowPopup(ShowPopupRequest),
    HidePopup,
}

/// Request to find the first terms in some text, for the given record kinds.
#[derive(Debug, Clone, Default)]
pub struct LookupRequest {
    pub text: String,
    pub record_kinds: Vec<RecordKind>,
}

/// Request to show a popup over a target window.
#[derive(Debug)]
pub struct ShowPopupRequest {
    pub target_window: WindowFilter,
    pub origin: (i32, i32),
    pub anchor: PopupAnchor,
    pub text: String,
}

/// Specifies a window on the user's window manager.
#[derive(Debug, Clone)]
pub struct WindowFilter {
    pub id: Option<u64>,
    pub pid: Option<u32>,
    pub title: Option<String>,
    pub wm_class: Option<String>,
}

/// Corner a popup expands out from.
#[derive(Debug, Clone, Copy, PartialEq, Eq, Hash, Structural)]
pub enum PopupAnchor {
    TopLeft,
    TopMiddle,
    TopRight,
    MiddleLeft,
    MiddleRight,
    BottomLeft,
    BottomMiddle,
    BottomRight,
}

/// A popup was shown: how many bytes of the text were scanned.
#[derive(Debug, Clone, Copy)]
pub struct ShowPopupResponse {
    pub scan_len: u64,
}

/// Failure to show a popup.
#[derive(Debug, Clone, Copy, PartialEq, Eq)]
pub enum ShowPopupError {
    NoRecords,
}

impl ShowPopupError {
    /// Human-readable message.
    pub fn message(self) -> (r: &'static str)
        ensures
            r@ == "no records to show"@,
    {
        "no records to show"
    }
}

} // verus!
