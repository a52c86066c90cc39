//! Schema of Yomitan dictionary archives: the index, and the tag, term and
//! term-meta banks.

pub mod structured;

use vstd::prelude::*;

verus! {

/// The `index.json` of a Yomitan dictionary.
#[derive(Debug, Clone)]
pub struct Index {
    pub format: Format,
    pub title: String,
    pub revision: String,
    pub minimum_yomitan_version: Option<String>,
    pub sequenced: Option<bool>,
    pub is_updatable: Option<bool>,
    pub index_url: Option<String>,
    pub download_url: Option<String>,
    pub author: Option<String>,
    pub url: Option<String>,
    pub description: Option<String>,
    pub attribution: Option<String>,
    pub source_language: Option<IsoLanguageCode>,
    pub target_language: Option<IsoLanguageCode>,
    pub frequency_mode: Option<FrequencyMode>,
}

/// Version of the dictionary format (1, 2 or 3).
#[derive(Debug, Clone, Copy, PartialEq, Eq, Hash, Structural)]
pub enum Format {
    One,
    Two,
    Three,
}

impl Format {
    /// The version number.
    pub fn number(self) -> (r: u8)
        ensures
            r == (match self {
                Format::One => 1u8,
                Format::Two => 2u8,
                Format::Three => 3u8,
            }),
    {
        match self {
            Format::One => 1,
            Format::Two => 2,
            Format::Three => 3,
        }
    }

    /// The format with this version number, if any.
    pub fn from_number(n: u8) -> (r: Option<Format>)
        ensures
            r matches Some(f) ==> f.number_spec() == n,
            r is None <==> !(1 <= n <= 3),
    {
        match n {
            1 => Some(Format::One),
            2 => Some(Format::Two),
            3 => Some(Format::Three),
            _ => None,
        }
    }

    /// The format version number.
    pub open spec fn number_spec(self) -> u8 {
        match self {
            Format::One => 1u8,
            Format::Two => 2u8,
            Format::Three => 3u8,
        }
    }
}

/// Whether frequency values count occurrences or give ranks.
#[derive(Debug, Clone, Copy, PartialEq, Eq, Hash, Structural)]
pub enum FrequencyMode {
    OccurrenceBased,
    RankBased,
}

/// An ISO language code.
#[derive(Debug, Clone)]
pub struct IsoLanguageCode(pub String);

/// A bank of tags.
#[derive(Debug, Clone, Default)]
pub struct TagBank(pub Vec<Tag>);

/// A tag definition: name, category, order, notes and score.
#[derive(Debug, Clone)]
pub struct Tag {
    pub name: String,
    pub category: String,
    pub order: i64,
    pub notes: String,
    pub score: i64,
}

/// A bank of terms.
#[derive(Debug, Default)]
pub struct TermBank(pub Vec<Term>);

/// A term entry: expression, reading, definition tags, rules, score,
/// glossaries, sequence number and term tags.
#[derive(Debug)]
pub struct Term {
    pub expression: String,
    pub reading: String,
    pub definition_tags: Option<String>,
    pub rules: String,
    pub score: i64,
    pub glossary: Vec<Glossary>,
    pub sequence: i64,
    pub term_tags: String,
}

/// One glossary entry of a term.
#[derive(Debug)]
pub enum Glossary {
    String(String),
    Deinflection(GlossaryDeinflection),
    Content(GlossaryContent),
}

/// A glossary that points to the uninflected form of the term.
#[derive(Debug, Clone)]
pub struct GlossaryDeinflection {
    pub uninflected: String,
    pub inflection_rule_chain: Vec<String>,
}

/// Typed glossary content.
#[derive(Debug)]
pub enum GlossaryContent {
    Text { text: String },
    Image(structured::ImageElementBase),
    StructuredContent { content: structured::Content },
}

/// A bank of term metadata.
#[derive(Debug, Default)]
pub struct TermMetaBank(pub Vec<TermMeta>);

/// Metadata of a term.
#[derive(Debug)]
pub enum TermMeta {
    Frequency(TermMetaFrequency),
    Pitch(TermMetaPitch),
    Phonetic(TermMetaPhonetic),
}

/// Frequency metadata of an expression.
#[derive(Debug, Clone)]
pub struct TermMetaFrequency {
    pub expression: String,
}

/// A frequency value: a string, a number, or a number with a display value.
#[derive(Debug, Clone)]
pub enum GenericFrequencyData {
    String(String),
    Number(u64),
    Complex { value: u64, display_value: Option<String> },
}

/// Pitch metadata of an expression.
#[derive(Debug, Clone)]
pub struct TermMetaPitch {
    pub expression: String,
    pub data: TermMetaPitchData,
}

/// The pitches of one reading.
#[derive(Debug, Clone)]
pub struct TermMetaPitchData {
    pub reading: String,
    pub pitches: Vec<Pitch>,
}

/// One pitch: downstep position, nasal and devoiced positions, and tags.
#[derive(Debug, Clone)]
pub struct Pitch {
    pub position: u64,
    pub nasal: Option<PitchPosition>,
    pub devoice: Option<PitchPosition>,
    pub tags: Vec<String>,
}

/// One mora position, or several.
#[derive(Debug, Clone)]
pub enum PitchPosition {
    One(u64),
    Many(Vec<u64>),
}

/// Phonetic metadata of an expression.
#[derive(Debug, Clone)]
pub struct TermMetaPhonetic {
    pub expression: String,
    pub data: TermMetaPhoneticData,
}

/// The phonetic transcriptions of one reading.
#[derive(Debug, Clone)]
pub struct TermMetaPhoneticData {
    pub reading: String,
    pub transcriptions: Vec<PhoneticTranscription>,
}

/// An IPA transcription with its tags.
#[derive(Debug, Clone)]
pub struct PhoneticTranscription {
    pub ipa: String,
    pub tags: Vec<String>,
}

} // verus!
