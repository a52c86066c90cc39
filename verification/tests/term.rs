use wordbase::term::{DictionaryKind, DictionaryMeta, NormString, Term};

#[test]
fn term_api() {
    const TEST: &str = "test";

    let test = NormString::new(TEST).unwrap();

    assert_eq!(Term::from_headword(""), None);
    assert_eq!(
        Term::from_headword(TEST),
        Some(Term::Headword {
            headword: test.clone(),
        })
    );
    let mut term = Term::from_headword(test.clone());
    assert_eq!(
        term,
        Term::Headword {
            headword: test.clone()
        }
    );
    term.set_reading(test.clone());
    assert_eq!(
        term,
        Term::Full {
            headword: test.clone(),
            reading: test.clone()
        }
    );

    assert_eq!(Term::from_reading(""), None);
    assert_eq!(
        Term::from_reading(TEST),
        Some(Term::Reading {
            reading: test.clone()
        })
    );
    let mut term = Term::from_reading(test.clone());
    assert_eq!(
        term,
        Term::Reading {
            reading: test.clone(),
        }
    );
    term.set_headword(test.clone());
    assert_eq!(
        term,
        Term::Full {
            headword: test.clone(),
            reading: test
        }
    );
}

#[test]
fn norm_string_trims() {
    assert_eq!(NormString::new("  猫 \n").unwrap().as_str(), "猫");
    assert!(NormString::new(" \t\n").is_none());
    assert!(NormString::new("").is_none());
    assert_eq!(NormString::new("a b").unwrap().into_inner(), "a b");
}

#[test]
fn term_new_and_parts() {
    assert_eq!(Term::new("", " "), None);
    let t = Term::new("猫", "ねこ").unwrap();
    assert_eq!(t.headword().unwrap().as_str(), "猫");
    assert_eq!(t.reading().unwrap().as_str(), "ねこ");
    let t = Term::new(" ", "ねこ").unwrap();
    assert!(t.headword().is_none());
    assert_eq!(t.clone().take_reading().unwrap().as_str(), "ねこ");
    assert!(t.take_headword().is_none());
}

#[test]
fn set_parts_return_previous() {
    let mut t = Term::new("猫", "ねこ").unwrap();
    let old = t.set_headword(NormString::new("ネコ").unwrap());
    assert_eq!(old.unwrap().as_str(), "猫");
    let old = t.set_reading(NormString::new("neko").unwrap());
    assert_eq!(old.unwrap().as_str(), "ねこ");
    assert_eq!(t.headword().unwrap().as_str(), "ネコ");
    assert_eq!(t.reading().unwrap().as_str(), "neko");
}

#[test]
fn dictionary_meta_new() {
    let m = DictionaryMeta::new(DictionaryKind::Yomitan, "Jitendex".into());
    assert_eq!(m.kind, DictionaryKind::Yomitan);
    assert_eq!(m.name, "Jitendex");
    assert!(m.version.is_none());
}
