//! Generic record types which may be present in any dictionary.

use vstd::prelude::*;

use crate::dict::yomichan_audio::{Forvo, Jpod, Nhk16, Shinmeikai8};
use crate::dict::yomitan::{Glossary, Pitch};
use crate::import::yomitan::FrequencyRecord;
use crate::term::Term;

verus! {

/// Kind of a record a dictionary can hold for a term.
#[derive(Debug, Clone, Copy, PartialEq, Eq, Hash, Structural)]
pub enum RecordKind {
    GlossaryPlainText,
    GlossaryHtml,
    Frequency,
    YomitanGlossary,
    YomitanFrequency,
    YomitanPitch,
    YomichanAudioForvo,
    YomichanAudioJpod,
    YomichanAudioNhk16,
    YomichanAudioShinmeikai8,
}

/// Definition of a term in plain text format.
#[derive(Debug, Clone, Default, PartialEq, Eq, Hash)]
pub struct GlossaryPlainText(pub String);

/// Definition of a term in HTML format.
#[derive(Debug, Clone, Default, PartialEq, Eq, Hash)]
pub struct GlossaryHtml(pub String);

/// How often a term appears in a dictionary's corpus: its position in the
/// frequency ranking (lower is more frequent), with an optional display
/// value.
#[derive(Debug, Clone, Default)]
pub struct Frequency {
    pub rank: u64,
    pub display: Option<String>,
}

impl Frequency {
    /// Creates a new value from just a rank.
    pub fn new(rank: u64) -> (r: Frequency)
        ensures
            r.rank == rank,
            r.display is None,
    {
        Frequency { rank, display: None }
    }
}

/// Identifier of a dictionary.
#[derive(Debug, Clone, Copy, PartialEq, Eq, Hash, Structural)]
pub struct DictionaryId(pub u64);

/// Identifier of a record.
#[derive(Debug, Clone, Copy, PartialEq, Eq, Hash, Structural)]
pub struct RecordId(pub u64);

/// A byte range `start..end` of a looked-up text.
#[derive(Debug, Clone, Copy, PartialEq, Eq, Hash, Structural)]
pub struct ByteSpan {
    pub start: u64,
    pub end: u64,
}

/// A record a dictionary holds for a term.
#[derive(Debug)]
pub enum Record {
    YomitanGlossary(Glossary),
    YomitanFrequency(FrequencyRecord),
    YomitanPitch(Pitch),
    YomichanAudioForvo(Forvo),
    YomichanAudioJpod(Jpod),
    YomichanAudioNhk16(Nhk16),
    YomichanAudioShinmeikai8(Shinmeikai8),
}

/// A record found by a lookup: which dictionary it comes from, the term it is
/// for, and the bytes of the looked-up text that matched.
#[derive(Debug)]
pub struct RecordEntry {
    pub source: DictionaryId,
    pub term: Term,
    pub span_bytes: ByteSpan,
    pub record_id: RecordId,
    pub record: Record,
}

} // verus!
