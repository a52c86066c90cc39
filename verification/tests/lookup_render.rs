use wordbase::anki::{build_term_note, sentence_cloze, NoRecords};
use wordbase::dict::yomichan_audio::{Audio, AudioFormat, Forvo, Nhk16};
use wordbase::dict::yomitan::{Glossary, Pitch};
use wordbase::import::yomitan::{FrequencyRecord, FrequencyValue};
use wordbase::record::{ByteSpan, DictionaryId, Record, RecordEntry, RecordId, RecordKind};
use wordbase::render::{audio_blob, audio_mime_type, base_pitch, distinct_u64, group_terms};
use wordbase::structured::Content;
use wordbase::term::{NormString, Term};

fn norm(s: &str) -> NormString {
    NormString::new(s).unwrap()
}

fn cat() -> Term {
    Term::Full { headword: norm("猫"), reading: norm("ねこ") }
}

fn dog() -> Term {
    Term::Reading { reading: norm("いぬ") }
}

fn entry(source: u64, term: Term, start: u64, end: u64, record: Record) -> RecordEntry {
    RecordEntry {
        source: DictionaryId(source),
        term,
        span_bytes: ByteSpan { start, end },
        record_id: RecordId(0),
        record,
    }
}

fn glossary(texts: &[&str]) -> Record {
    Record::YomitanGlossary(Glossary {
        popularity: 0,
        tags: vec![],
        content: texts.iter().map(|t| Content::String((*t).to_owned())).collect(),
    })
}

fn pitch(position: u64) -> Record {
    Record::YomitanPitch(Pitch { position, nasal: vec![], devoice: vec![] })
}

// "今日は猫がいる": 猫 is bytes 9..12.
fn entries() -> Vec<RecordEntry> {
    vec![
        entry(1, cat(), 9, 12, glossary(&["cat", "a<b"])),
        entry(
            2,
            cat(),
            9,
            12,
            Record::YomitanFrequency(FrequencyRecord {
                value: Some(FrequencyValue::Rank(5)),
                display: None,
            }),
        ),
        entry(3, cat(), 9, 12, pitch(1)),
        entry(3, cat(), 9, 12, pitch(0)),
        entry(3, cat(), 9, 12, pitch(1)),
        entry(1, dog(), 0, 3, glossary(&["dog"])),
        entry(
            4,
            cat(),
            9,
            12,
            Record::YomichanAudioForvo(Forvo {
                username: "u".to_owned(),
                audio: Audio { format: AudioFormat::Mp3, data: vec![1, 2, 3] },
            }),
        ),
        entry(
            5,
            cat(),
            9,
            12,
            Record::YomichanAudioNhk16(Nhk16 {
                audio: Audio { format: AudioFormat::Opus, data: vec![0] },
                pitch_positions: vec![0, 0],
            }),
        ),
    ]
}

#[test]
fn audio_urls() {
    let a = Audio { format: AudioFormat::Mp3, data: vec![1, 2, 3] };
    assert_eq!(audio_mime_type(&a), "audio/mp3");
    assert_eq!(audio_blob(&a), "data:audio/mp3;base64,AQID");
    let b = Audio { format: AudioFormat::Opus, data: b"hello".to_vec() };
    assert_eq!(audio_blob(&b), "data:audio/opus;base64,aGVsbG8=");
}

#[test]
fn pitch_of_reading() {
    assert_eq!(base_pitch(&cat(), 1).high, vec![true, false, false]);
    assert_eq!(base_pitch(&cat(), 0).high, vec![false, true, true]);
    assert_eq!(base_pitch(&cat(), 2).high, vec![false, true, false]);
    let hw = Term::Headword { headword: norm("猫") };
    assert!(base_pitch(&hw, 1).high.is_empty());
}

#[test]
fn distinct_values() {
    assert_eq!(distinct_u64(&vec![3, 1, 3, 2, 1]), vec![3, 1, 2]);
    assert_eq!(distinct_u64(&vec![]), Vec::<u64>::new());
}

#[test]
fn grouped_by_term() {
    let es = entries();
    let furigana = vec![vec![("猫".to_owned(), "ねこ".to_owned())]; es.len()];
    let terms = group_terms(&es, &furigana);
    assert_eq!(terms.len(), 2);
    assert_eq!(terms[0].term, cat());
    assert_eq!(terms[1].term, dog());

    let info = &terms[0].info;
    assert_eq!(info.furigana_parts, vec![("猫".to_owned(), "ねこ".to_owned())]);
    assert_eq!(info.morae, vec!["ね".to_owned(), "こ".to_owned()]);
    assert_eq!(info.glossary_groups.len(), 1);
    assert_eq!(info.glossary_groups[0].0, DictionaryId(1));
    assert_eq!(info.glossary_groups[0].1.len(), 1);
    assert_eq!(info.glossary_groups[0].1[0].content, vec!["cat".to_owned(), "a&lt;b".to_owned()]);
    assert_eq!(info.frequencies.len(), 1);
    assert_eq!(info.frequencies[0].0, DictionaryId(2));
    assert_eq!(info.frequencies[0].1[0].value, Some(FrequencyValue::Rank(5)));
    assert_eq!(info.pitches.len(), 2);
    assert_eq!(info.pitches[0].0, 1);
    assert_eq!(info.pitches[0].1.high, vec![true, false, false]);
    assert_eq!(info.pitches[0].1.info.as_ref().unwrap().position, 1);
    assert!(info.pitches[0].1.audio.is_empty());
    assert_eq!(info.pitches[1].0, 0);
    assert_eq!(info.pitches[1].1.high, vec![false, true, true]);
    assert_eq!(info.pitches[1].1.audio.len(), 1);
    assert_eq!(info.pitches[1].1.audio[0].kind, RecordKind::YomichanAudioNhk16);
    assert_eq!(info.pitches[1].1.audio[0].blob, "data:audio/opus;base64,AA==");
    assert_eq!(info.audio_no_pitch.len(), 1);
    assert_eq!(info.audio_no_pitch[0].0, DictionaryId(4));
    assert_eq!(info.audio_no_pitch[0].1[0].kind, RecordKind::YomichanAudioForvo);
    assert_eq!(info.audio_no_pitch[0].1[0].blob, "data:audio/mp3;base64,AQID");

    let info = &terms[1].info;
    assert_eq!(info.furigana_parts, vec![("いぬ".to_owned(), String::new())]);
    assert_eq!(info.morae, vec!["い".to_owned(), "ぬ".to_owned()]);
    assert_eq!(info.glossary_groups[0].1[0].content, vec!["dog".to_owned()]);
    assert!(info.frequencies.is_empty() && info.pitches.is_empty() && info.audio_no_pitch.is_empty());
}

#[test]
fn cloze() {
    assert_eq!(sentence_cloze("今日は猫がいる", 9, 12).unwrap(), "今日は<b>猫</b>がいる");
    assert_eq!(sentence_cloze("今日は猫がいる", 9, 10), None);
    assert_eq!(sentence_cloze("abc", 2, 9), None);
    assert_eq!(sentence_cloze("abc", 1, 1).unwrap(), "a<b></b>bc");
}

#[test]
fn anki_note() {
    let es = entries();
    let names = vec![(DictionaryId(1), "Jitendex".to_owned()), (DictionaryId(2), "JPDB".to_owned())];
    let furigana = vec![("猫".to_owned(), "ねこ".to_owned())];
    let note = build_term_note("今日は猫がいる", &es, &cat(), &names, &furigana, "5".to_owned())
        .unwrap();
    let expect = [
        ("Expression", "猫"),
        ("ExpressionReading", "ねこ"),
        ("ExpressionFurigana", "猫[ねこ] "),
        ("Sentence", "今日は<b>猫</b>がいる"),
        ("MainDefinition", "<ul><li>cat</li><li>a&lt;b</li></ul>"),
        (
            "Glossary",
            "<ul><li>&lt;ul&gt;&lt;li&gt;cat&lt;/li&gt;&lt;li&gt;a&amp;lt;b&lt;/li&gt;&lt;/ul&gt;</li></ul>",
        ),
        ("IsWordAndSentenceCard", ""),
        ("IsClickCard", ""),
        ("IsSentenceCard", "x"),
        ("PitchPosition", "[1][0]"),
        ("Frequency", "<li>JPDB: 5</li>"),
        ("FreqSort", "5"),
    ];
    assert_eq!(note.fields.len(), expect.len());
    for (field, (name, value)) in note.fields.iter().zip(expect.iter()) {
        assert_eq!(field.0, *name);
        assert_eq!(field.1, *value);
    }
    let none = Term::Headword { headword: norm("鳥") };
    assert_eq!(build_term_note("x", &es, &none, &names, &vec![], String::new()).unwrap_err(), NoRecords);
}
