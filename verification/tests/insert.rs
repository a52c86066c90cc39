use wordbase::import::insert::{
    frequency_columns, frequency_row, record_row, Insert, BIND_LIMIT, ROW_BINDS,
};
use wordbase::import::yomitan::FrequencyValue;
use wordbase::record::{DictionaryId, RecordKind};
use wordbase::term::{NormString, Term};

#[test]
fn frequency_modes() {
    assert_eq!(frequency_columns(FrequencyValue::Rank(7)), (0, 7));
    assert_eq!(frequency_columns(FrequencyValue::Occurrence(-2)), (1, -2));
    let term = Term::Reading { reading: NormString::new("ねこ").unwrap() };
    let r = frequency_row(DictionaryId(3), term, FrequencyValue::Occurrence(40));
    assert_eq!((r.source, r.mode, r.value), (3, 1, 40));
    assert_eq!(r.headword, None);
    assert_eq!(r.reading.as_deref(), Some("ねこ"));
}

#[test]
fn record_rows() {
    let term = Term::Full {
        headword: NormString::new("猫").unwrap(),
        reading: NormString::new("ねこ").unwrap(),
    };
    let r = record_row(DictionaryId(1), term, RecordKind::YomitanGlossary, vec![1, 2]);
    assert_eq!(r.source, 1);
    assert_eq!(r.headword.as_deref(), Some("猫"));
    assert_eq!(r.reading.as_deref(), Some("ねこ"));
    assert_eq!(r.kind, RecordKind::YomitanGlossary);
    assert_eq!(r.data, vec![1, 2]);
}

#[test]
fn insert_none() {
    let mut rows = Insert::<u32>::new();
    assert_eq!(rows.flush(), None);
    assert_eq!(rows.binds(), 0);
}

#[test]
fn batch_inserts() {
    const ITEMS: usize = 100_000;
    let mut rows = Insert::<usize>::new();
    let mut written: Vec<usize> = Vec::new();
    for i in 0..ITEMS {
        if let Some(batch) = rows.insert(i) {
            assert!(ROW_BINDS * batch.len() < BIND_LIMIT);
            assert!(ROW_BINDS * (batch.len() + 1) >= BIND_LIMIT);
            written.extend(batch);
        }
        assert!(rows.binds() < BIND_LIMIT);
    }
    if let Some(batch) = rows.flush() {
        written.extend(batch);
    }
    assert_eq!(rows.binds(), 0);
    assert_eq!(written, (0..ITEMS).collect::<Vec<_>>());
}
