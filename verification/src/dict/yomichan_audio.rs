//! Records of the Yomichan local-audio collection format.

use vstd::prelude::*;

use crate::term::NormString;

verus! {

/// File type of audio data.
#[derive(Debug, Clone, Copy, PartialEq, Eq, Hash, Structural)]
pub enum AudioFormat {
    Opus,
    Mp3,
}

/// Audio file data with its file type.
#[derive(Debug, Clone)]
pub struct Audio {
    pub format: AudioFormat,
    pub data: Vec<u8>,
}

/// Forvo audio: the speaker's username and the audio.
#[derive(Debug, Clone)]
pub struct Forvo {
    pub username: String,
    pub audio: Audio,
}

/// JapanesePod101 audio.
#[derive(Debug, Clone)]
pub struct Jpod {
    pub audio: Audio,
}

/// NHK audio, with the pitch positions of the pronunciation.
#[derive(Debug, Clone)]
pub struct Nhk16 {
    pub audio: Audio,
    pub pitch_positions: Vec<u64>,
}

/// Shin Meikai (8th edition) audio, with the pronunciation's pitch position
/// and pitch pattern (the downstep written as `＼`).
#[derive(Debug, Clone)]
pub struct Shinmeikai8 {
    pub audio: Audio,
    pub pitch_number: Option<u64>,
    pub pitch_pattern: Option<NormString>,
}

} // verus!
