//! Core of a language-learning dictionary engine: terms and normalized
//! strings, Japanese morae, pitch accent and furigana, deinflection and
//! deconjugation, Yomitan and Yomichan local-audio records and their import,
//! HTML rendering of structured glossaries, lookup results grouped by term,
//! Anki note fields, profiles, and the byte layout of the term index.

pub mod lang;
pub mod text;
pub mod jp;
pub mod term;
pub mod dict;
pub mod structured;
pub mod content;
pub mod deinflect;
pub mod deconjugate;
pub mod types;
pub mod record;
pub mod glossary;
pub mod lookup;
pub mod hook;
pub mod protocol;
pub mod _protocol;
pub mod dictionary;
pub mod format;
pub mod import;
pub mod num;
pub mod anki;
pub mod html;
pub mod render;
pub mod storage;
pub mod connection;
pub mod profile;
