use wordbase::record::RecordId;
use wordbase::storage::{
    bytes_to_id, concat_merge, decode_term_entry, encode_term_entry, id_to_bytes, ids_from_blob, lookup_terms,
    row_term, term_entries, BlobLengthError, NoHeadwordOrReading, RecordIds, TermEntry,
    TermEntryError, TermTable,
};
use wordbase::term::{NormString, Term};

fn norm(s: &str) -> NormString {
    NormString::new(s).unwrap()
}

#[test]
fn term_entry_roundtrip() {
    let entry = TermEntry { record_id: RecordId(0x0102_0304_0506_0708), secondary: "よむ".to_owned() };
    let bytes = encode_term_entry(&entry);
    assert_eq!(&bytes[..8], &[8, 7, 6, 5, 4, 3, 2, 1]);
    assert_eq!(&bytes[8..], "よむ".as_bytes());
    let back = decode_term_entry(&bytes).unwrap();
    assert_eq!(back.record_id, entry.record_id);
    assert_eq!(back.secondary, entry.secondary);
}

#[test]
fn term_entry_empty_secondary() {
    let entry = TermEntry { record_id: RecordId(5), secondary: String::new() };
    let bytes = encode_term_entry(&entry);
    assert_eq!(bytes, vec![5, 0, 0, 0, 0, 0, 0, 0]);
    let back = decode_term_entry(&bytes).unwrap();
    assert_eq!(back.record_id, RecordId(5));
    assert_eq!(back.secondary, "");
}

#[test]
fn term_entry_errors() {
    assert_eq!(decode_term_entry(&[1, 2, 3]).unwrap_err(), TermEntryError::MissingRecordId);
    assert_eq!(
        decode_term_entry(&[1, 0, 0, 0, 0, 0, 0, 0, 0xff]).unwrap_err(),
        TermEntryError::InvalidSecondary
    );
}

#[test]
fn record_id_bytes() {
    assert_eq!(id_to_bytes(RecordId(258)), vec![2, 1, 0, 0, 0, 0, 0, 0]);
    assert_eq!(bytes_to_id(&[2, 1, 0, 0, 0, 0, 0, 0]), RecordId(258));
    assert_eq!(bytes_to_id(&id_to_bytes(RecordId(u64::MAX))), RecordId(u64::MAX));
}

#[test]
fn id_blob() {
    let mut blob = id_to_bytes(RecordId(3));
    blob.extend(id_to_bytes(RecordId(70000)));
    assert_eq!(ids_from_blob(&blob).unwrap(), vec![RecordId(3), RecordId(70000)]);
    assert_eq!(ids_from_blob(&[]).unwrap(), Vec::<RecordId>::new());
    assert_eq!(ids_from_blob(&blob[..9]).unwrap_err(), BlobLengthError { len: 9 });
}

#[test]
fn entries_of_terms() {
    let full = Term::Full { headword: norm("読む"), reading: norm("よむ") };
    let e = term_entries(&full, RecordId(9));
    assert_eq!(e.len(), 2);
    assert_eq!(e[0].0, TermTable::Headwords);
    assert_eq!(e[0].1, "読む");
    assert_eq!(e[0].2.secondary, "よむ");
    assert_eq!(e[1].0, TermTable::Readings);
    assert_eq!(e[1].1, "よむ");
    assert_eq!(e[1].2.secondary, "読む");
    assert!(e.iter().all(|x| x.2.record_id == RecordId(9)));

    let reading = Term::Reading { reading: norm("よむ") };
    let e = term_entries(&reading, RecordId(1));
    assert_eq!(e.len(), 1);
    assert_eq!(e[0].0, TermTable::Readings);
    assert_eq!(e[0].2.secondary, "");
}

#[test]
fn lookup_rows_to_terms() {
    let hs = vec![TermEntry { record_id: RecordId(1), secondary: "よむ".to_owned() }];
    let rs = vec![
        TermEntry { record_id: RecordId(2), secondary: "詠む".to_owned() },
        TermEntry { record_id: RecordId(3), secondary: String::new() },
    ];
    let v = lookup_terms("読む", &hs, &rs).unwrap();
    assert_eq!(v.len(), 3);
    assert_eq!(v[0], (Term::Full { headword: norm("読む"), reading: norm("よむ") }, RecordId(1)));
    assert_eq!(v[1], (Term::Full { headword: norm("詠む"), reading: norm("読む") }, RecordId(2)));
    assert_eq!(v[2], (Term::Reading { reading: norm("読む") }, RecordId(3)));

    let bad = vec![TermEntry { record_id: RecordId(1), secondary: " ".to_owned() }];
    assert_eq!(lookup_terms(" ", &bad, &vec![]).unwrap_err(), NoHeadwordOrReading);
}

#[test]
fn record_id_counter() {
    let mut ids = RecordIds::new();
    assert_eq!(ids.next_id(), RecordId(0));
    assert_eq!(ids.next_id(), RecordId(1));
    ids.next = u64::MAX;
    assert_eq!(ids.next_id(), RecordId(u64::MAX));
    assert_eq!(ids.next_id(), RecordId(0));
}

#[test]
fn rows_to_terms() {
    assert_eq!(
        row_term(Some("猫".to_owned()), None).unwrap(),
        Term::Headword { headword: norm("猫") }
    );
    assert_eq!(row_term(None, Some(" ".to_owned())).unwrap_err(), NoHeadwordOrReading);
}

#[test]
fn merged_ids_read_back() {
    let existing = id_to_bytes(RecordId(1));
    let ops = vec![id_to_bytes(RecordId(2)), id_to_bytes(RecordId(3))];
    let merged = concat_merge(Some(&existing), &ops);
    assert_eq!(ids_from_blob(&merged).unwrap(), vec![RecordId(1), RecordId(2), RecordId(3)]);
    assert_eq!(concat_merge(None, &vec![vec![1], vec![], vec![2, 3]]), vec![1, 2, 3]);
    assert_eq!(concat_merge(None, &vec![]), Vec::<u8>::new());
}

#[test]
fn lookup_finds_filed_term() {
    let term = Term::Full { headword: norm("読む"), reading: norm("よむ") };
    let id = RecordId(42);
    let entries = term_entries(&term, id);
    // what the index holds under each key, written as bytes and read back
    let stored = |table: TermTable| -> (String, Vec<TermEntry>) {
        let e = entries.iter().find(|e| e.0 == table).unwrap();
        let back = decode_term_entry(&encode_term_entry(&e.2)).unwrap();
        (e.1.clone(), vec![back])
    };
    let (hw_key, hw_rows) = stored(TermTable::Headwords);
    assert_eq!(lookup_terms(&hw_key, &hw_rows, &vec![]).unwrap(), vec![(term.clone(), id)]);
    let (rd_key, rd_rows) = stored(TermTable::Readings);
    assert_eq!(lookup_terms(&rd_key, &vec![], &rd_rows).unwrap(), vec![(term.clone(), id)]);
}
