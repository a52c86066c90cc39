//! Deinflection results with the span of source text they come from.

use vstd::prelude::*;

use crate::deinflect::Span;
use crate::text::{byte_len, bytes_len};

verus! {

/// Result of using a deinflector to get the canonical form (lemma) of a word
/// in a sentence, with the byte range of the source word.
#[derive(Debug)]
pub struct Deinflection {
    pub lemma: String,
    pub source_span: Span,
}

impl Deinflection {
    /// A deinflection of the word `src` starting at byte `start` of the
    /// source text, to `lemma`; the span covers `src`.
    pub fn new(start: usize, src: &str, lemma: String) -> (r: Deinflection)
        requires
            start + bytes_len(src@) <= usize::MAX,
        ensures
            r.lemma@ == lemma@,
            r.source_span.start == start,
            r.source_span.end == start + bytes_len(src@),
    {
        let n = byte_len(src);
        Deinflection { source_span: Span { start, end: start + n }, lemma }
    }

    /// This deinflection as a fully owned value; its lemma is already owned,
    /// so it is returned as it is.
    pub fn into_owned(self) -> (r: Deinflection)
        ensures
            r == self,
    {
        self
    }
}

} // verus!
