use wordbase::dict::Reading;

#[test]
fn test() {
    assert_eq!(
        Reading::from_pairs(&[("協", "きょう"), ("力", "りょく")]),
        Reading {
            expression: "協力".into(),
            reading: "きょうりょく".into(),
            pair_indices: vec![("協".len(), "きょう".len()), ("力".len(), "りょく".len())],
        }
    );
}

#[test]
fn reading_from_no_pairs() {
    let r = Reading::from_no_pairs("協力".into(), "きょうりょく".into());
    assert_eq!(r.expression(), "協力");
    assert_eq!(r.reading(), "きょうりょく");
    assert!(r.pair_indices.is_empty());
}

#[test]
fn reading_from_empty_pairs() {
    let r = Reading::from_pairs(&[]);
    assert_eq!(r.expression, "");
    assert_eq!(r.reading, "");
    assert!(r.pair_indices.is_empty());
}
