//! Shapes of the index files of a Yomichan local-audio archive, as they are
//! read from JSON.

use vstd::prelude::*;

verus! {

/// What the index of a JapanesePod101 or Shin Meikai collection says of one
/// audio file.
#[derive(Debug, Clone, Default)]
pub struct FileInfo {
    pub kana_reading: Option<String>,
    pub pitch_pattern: Option<String>,
    pub pitch_number: Option<String>,
}

/// The index of a JapanesePod101 or Shin Meikai collection: the audio files
/// of each headword, and what is known of each file.
#[derive(Debug, Clone, Default)]
pub struct GenericIndex {
    pub headwords: Vec<(String, Vec<String>)>,
    pub files: Vec<(String, FileInfo)>,
}

/// One pitch accent of an NHK pronunciation.
#[derive(Debug, Clone, Copy)]
pub struct Nhk16Pitch {
    pub pitch_accent: i64,
}

/// One pronunciation of an NHK entry: its audio file if it has one, and its
/// pitch accents.
#[derive(Debug, Clone, Default)]
pub struct Nhk16Accent {
    pub sound_file: Option<String>,
    pub accent: Vec<Nhk16Pitch>,
}

/// An NHK entry: its reading, the headwords it is written with, and its
/// pronunciations.
#[derive(Debug, Clone, Default)]
pub struct Nhk16Entry {
    pub kana: String,
    pub kanji: Vec<String>,
    pub accents: Vec<Nhk16Accent>,
}

/// The index of the NHK collection.
#[derive(Debug, Clone, Default)]
pub struct Nhk16Index(pub Vec<Nhk16Entry>);

} // verus!
