use wordbase::connection::{handshake_outcome, reply_of, ClientError};
use wordbase::deinflect::latin::word_at_cursor;
use wordbase::dictionary::yomitan::{FrequencyMode, Pitch, TermMetaPitchData};
use wordbase::import::insert::{frequency_rows, term_meta_rows};
use wordbase::import::yomitan::{
    bank_kind_from_matches, BankKind, FrequencyData, MetaRecord, TermMetaData, TermMetaEntry,
    TermMetaFrequencyData,
};
use wordbase::record::DictionaryId;

fn freq(expression: &str, data: FrequencyData) -> TermMetaEntry {
    TermMetaEntry {
        expression: expression.to_owned(),
        data: TermMetaData::Frequency(TermMetaFrequencyData::Generic(data)),
    }
}

#[test]
fn frequency_row_only_with_a_value() {
    let (recs, rows) = term_meta_rows(DictionaryId(2), None, freq("猫", FrequencyData::Number(7))).unwrap();
    assert_eq!(recs.len(), 1);
    assert_eq!(rows.len(), 1);
    assert_eq!((rows[0].source, rows[0].mode, rows[0].value), (2, 0, 7));
    assert_eq!(rows[0].headword.as_deref(), Some("猫"));
    assert_eq!(rows[0].reading, None);

    let (recs, rows) = term_meta_rows(
        DictionaryId(2),
        Some(FrequencyMode::OccurrenceBased),
        freq("猫", FrequencyData::String("~5".to_owned())),
    )
    .unwrap();
    assert!(matches!(&recs[0].1, MetaRecord::Frequency(f) if f.value.is_none()));
    assert!(rows.is_empty());

    let pitch = TermMetaEntry {
        expression: "橋".to_owned(),
        data: TermMetaData::Pitch(TermMetaPitchData {
            reading: "はし".to_owned(),
            pitches: vec![Pitch { position: 2, nasal: None, devoice: None, tags: vec![] }],
        }),
    };
    let (recs, rows) = term_meta_rows(DictionaryId(2), None, pitch).unwrap();
    assert_eq!(recs.len(), 1);
    assert!(rows.is_empty());
    assert!(frequency_rows(DictionaryId(1), &recs).is_empty());
    assert!(term_meta_rows(DictionaryId(2), None, freq(" ", FrequencyData::Number(1))).is_err());
}

#[test]
fn bank_kinds_from_match_outcomes() {
    assert_eq!(bank_kind_from_matches(false, true, true, false, false), Some(BankKind::Term));
    assert_eq!(bank_kind_from_matches(false, false, false, false, true), Some(BankKind::KanjiMeta));
    assert_eq!(bank_kind_from_matches(false, false, false, false, false), None);
}

#[test]
fn word_under_cursor() {
    let words = vec![(0usize, "hi".to_owned()), (3, "world".to_owned())];
    assert_eq!(word_at_cursor(&words, 0), 0);
    assert_eq!(word_at_cursor(&words, 2), 0);
    assert_eq!(word_at_cursor(&words, 3), 1);
    assert_eq!(word_at_cursor(&words, 9), 2);
}

#[test]
fn client_replies() {
    assert_eq!(reply_of::<u8, &str>(Ok(Some(4))), Ok(4));
    assert_eq!(reply_of::<u8, &str>(Ok(None)), Err(ClientError::InvalidResponseKind));
    assert_eq!(reply_of::<u8, &str>(Err("closed")), Err(ClientError::Exchange("closed")));
    assert_eq!(handshake_outcome("s", Ok::<Option<()>, ()>(Some(()))).unwrap().0, "s");
    assert_eq!(
        handshake_outcome("s", Ok::<Option<()>, ()>(None)).unwrap_err(),
        (ClientError::InvalidResponseKind, "s")
    );
}
