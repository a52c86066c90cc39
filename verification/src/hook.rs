//! Sentences received from texthooking applications.

use vstd::prelude::*;

verus! {

/// Sentence extracted from another process: the process path it came from,
/// and the text, which may have surrounding whitespace.
#[derive(Debug, Clone, Default)]
pub struct HookSentence {
    pub process_path: String,
    pub sentence: String,
}

} // verus!
