use wordbase::dict::yomichan_audio::AudioFormat;
use wordbase::import::yomichan_audio::rev_index::{generic_rev_index, nhk16_rev_index};
use wordbase::import::yomichan_audio::schema::{
    FileInfo, GenericIndex, Nhk16Accent, Nhk16Entry, Nhk16Index, Nhk16Pitch,
};
use wordbase::import::yomichan_audio::{
    audio_meta, entry_records, extension, file_name, format_of, forvo_record, index_kind,
    media_kind, progress_due, require_indexes, validate, AudioFormatError, AudioPaths, Count,
    EntryError, ForvoError, IndexKind, MediaKind, MissingIndex, MissingMarker,
};
use wordbase::record::Record;
use wordbase::term::{DictionaryKind, NormString, Term};

fn norm(s: &str) -> NormString {
    NormString::new(s).unwrap()
}

fn paths() -> AudioPaths {
    AudioPaths {
        forvo: "user_files/forvo_files/".to_owned(),
        jpod_index: "user_files/jpod_files/index.json".to_owned(),
        jpod_media: "user_files/jpod_files/media/".to_owned(),
        nhk16_index: "user_files/nhk16_files/entries.json".to_owned(),
        nhk16_audio: "user_files/nhk16_files/audio/".to_owned(),
        shinmeikai8_index: "user_files/shinmeikai8_files/index.json".to_owned(),
        shinmeikai8_media: "user_files/shinmeikai8_files/media/".to_owned(),
        markers: vec!["user_files/forvo_files/".to_owned()],
    }
}

fn generic() -> GenericIndex {
    GenericIndex {
        headwords: vec![
            ("読む".to_owned(), vec!["a.mp3".to_owned(), "b.mp3".to_owned()]),
            ("  ".to_owned(), vec!["c.mp3".to_owned()]),
        ],
        files: vec![
            (
                "a.mp3".to_owned(),
                FileInfo {
                    kana_reading: Some("よむ".to_owned()),
                    pitch_pattern: Some("よ＼む".to_owned()),
                    pitch_number: Some("1".to_owned()),
                },
            ),
            (
                "d.opus".to_owned(),
                FileInfo {
                    kana_reading: Some("かく".to_owned()),
                    pitch_pattern: None,
                    pitch_number: Some("x".to_owned()),
                },
            ),
        ],
    }
}

fn nhk16() -> Nhk16Index {
    Nhk16Index(vec![Nhk16Entry {
        kana: "はし".to_owned(),
        kanji: vec!["橋".to_owned(), "箸".to_owned()],
        accents: vec![
            Nhk16Accent {
                sound_file: Some("h.opus".to_owned()),
                accent: vec![Nhk16Pitch { pitch_accent: 2 }, Nhk16Pitch { pitch_accent: -1 }],
            },
            Nhk16Accent { sound_file: None, accent: vec![Nhk16Pitch { pitch_accent: 0 }] },
        ],
    }])
}

#[test]
fn path_parts() {
    assert_eq!(file_name("a/b/c.mp3").as_deref(), Some("c.mp3"));
    assert_eq!(extension("a/b/c.mp3").as_deref(), Some("mp3"));
    assert_eq!(extension("a/.hidden"), None);
    assert_eq!(format_of("x.opus"), Ok(AudioFormat::Opus));
    assert_eq!(format_of("x.MP3"), Err(AudioFormatError::Unknown("MP3".to_owned())));
    assert_eq!(format_of("x"), Err(AudioFormatError::NoExtension));
}

#[test]
fn forvo_files() {
    let (term, rec) = forvo_record("someone/読む.mp3", vec![7]).unwrap();
    assert_eq!(term, Term::Headword { headword: norm("読む") });
    assert_eq!(rec.username, "someone");
    assert_eq!(rec.audio.format, AudioFormat::Mp3);
    assert_eq!(rec.audio.data, vec![7]);
    assert_eq!(forvo_record("someone", vec![]).unwrap_err(), ForvoError::NoHeadword);
    assert_eq!(
        forvo_record("someone/読む.wav", vec![]).unwrap_err(),
        ForvoError::Format(AudioFormatError::Unknown("wav".to_owned()))
    );
}

#[test]
fn generic_index() {
    let idx = generic_rev_index(&generic());
    let a = idx.get("a.mp3").unwrap();
    assert_eq!(a.term, Some(Term::Full { headword: norm("読む"), reading: norm("よむ") }));
    assert_eq!(a.pitch_number, Some(1));
    assert_eq!(a.pitch_pattern.as_ref().unwrap().as_str(), "よ＼む");
    let b = idx.get("b.mp3").unwrap();
    assert_eq!(b.term, Some(Term::Headword { headword: norm("読む") }));
    assert_eq!(b.pitch_number, None);
    assert!(idx.get("c.mp3").is_none());
    let d = idx.get("d.opus").unwrap();
    assert_eq!(d.term, Some(Term::Reading { reading: norm("かく") }));
    assert_eq!(d.pitch_number, None);
    assert!(idx.get("zzz").is_none());
}

#[test]
fn nhk16_index() {
    let idx = nhk16_rev_index(&nhk16());
    let h = idx.get("h.opus").unwrap();
    assert_eq!(
        h.terms,
        vec![
            Term::Full { headword: norm("橋"), reading: norm("はし") },
            Term::Full { headword: norm("箸"), reading: norm("はし") },
        ]
    );
    assert_eq!(h.pitch_positions, vec![2]);
    assert_eq!(idx.for_path.len(), 1);
}

#[test]
fn archive_layout() {
    let p = paths();
    assert_eq!(validate(&p, &vec!["x".to_owned(), "user_files/forvo_files/".to_owned()]), Ok(()));
    assert_eq!(validate(&p, &vec!["x".to_owned()]), Err(MissingMarker));
    assert_eq!(index_kind(&p, "user_files/nhk16_files/entries.json"), Some(IndexKind::Nhk16));
    assert_eq!(index_kind(&p, "user_files/nhk16_files/other.json"), None);
    assert_eq!(
        media_kind(&p, "user_files/jpod_files/media/a.mp3"),
        Some((MediaKind::Jpod, "a.mp3".to_owned()))
    );
    assert_eq!(media_kind(&p, "elsewhere/a.mp3"), None);
    let meta = audio_meta();
    assert_eq!(meta.kind, DictionaryKind::YomichanAudio);
    assert_eq!(meta.name, "Yomichan Japanese Local Audio");
}

#[test]
fn missing_indexes() {
    let g = || Some(generic_rev_index(&generic()));
    let n = || Some(nhk16_rev_index(&nhk16()));
    assert_eq!(require_indexes(None, n(), g()).unwrap_err(), MissingIndex::Jpod);
    assert_eq!(require_indexes(g(), None, None).unwrap_err(), MissingIndex::Nhk16);
    assert_eq!(require_indexes(g(), n(), None).unwrap_err(), MissingIndex::Shinmeikai8);
    assert!(require_indexes(g(), n(), g()).is_ok());
}

#[test]
fn records_of_entries() {
    let p = paths();
    let idx = require_indexes(
        Some(generic_rev_index(&generic())),
        Some(nhk16_rev_index(&nhk16())),
        Some(generic_rev_index(&generic())),
    )
    .unwrap();
    let data = vec![1u8, 2];

    let v = entry_records(&p, &idx, "user_files/forvo_files/u/猫.opus", &data).unwrap();
    assert_eq!(v.len(), 1);
    assert_eq!(v[0].0, Term::Headword { headword: norm("猫") });
    assert!(matches!(&v[0].1, Record::YomichanAudioForvo(f) if f.username == "u" && f.audio.data == data));

    let v = entry_records(&p, &idx, "user_files/jpod_files/media/a.mp3", &data).unwrap();
    assert_eq!(v.len(), 1);
    assert!(matches!(&v[0].1, Record::YomichanAudioJpod(j) if j.audio.format == AudioFormat::Mp3));

    let v = entry_records(&p, &idx, "user_files/nhk16_files/audio/h.opus", &data).unwrap();
    assert_eq!(v.len(), 2);
    assert!(matches!(&v[1].1, Record::YomichanAudioNhk16(n) if n.pitch_positions == vec![2]));

    let v = entry_records(&p, &idx, "user_files/shinmeikai8_files/media/a.mp3", &data).unwrap();
    assert!(matches!(&v[0].1, Record::YomichanAudioShinmeikai8(s) if s.pitch_number == Some(1)));

    assert!(entry_records(&p, &idx, "user_files/jpod_files/media/none.mp3", &data).unwrap().is_empty());
    assert!(entry_records(&p, &idx, "readme.txt", &data).unwrap().is_empty());
    assert_eq!(
        entry_records(&p, &idx, "user_files/forvo_files/u", &data).unwrap_err(),
        EntryError::Forvo(ForvoError::NoHeadword)
    );
}

#[test]
fn progress_and_count() {
    assert!(progress_due(2000) && progress_due(4000));
    assert!(!progress_due(1999));
    let mut c = Count::new(());
    c.consume(5);
    c.consume(7);
    assert_eq!(c.pos(), 12);
}
