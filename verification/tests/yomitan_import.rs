use wordbase::dict::yomitan::GlossaryTag;
use wordbase::dictionary::yomitan::{FrequencyMode, Glossary as RawGlossary, PitchPosition, Tag, Term as RawTerm};
use wordbase::import::yomitan::{
    all_tags, bank_kind, row_progress_due, bank_paths, has_index, import_banks, match_tags, num_banks,
    sort_by_name_len, term_meta_records, term_records, to_frequency, to_pitch_positions,
    to_term_tag, Bank, BankKind, FrequencyData, FrequencyValue, MetaRecord,
    NoHeadwordOrReading, RowError, RowImport, TermMetaData, TermMetaEntry,
    TermMetaFrequencyData,
};
use wordbase::structured::Content;
use wordbase::term::{NormString, Term};

fn tag(name: &str, order: i64) -> Tag {
    Tag { name: name.to_owned(), category: "c".to_owned(), order, notes: format!("{name} notes"), score: 0 }
}

fn gtag(name: &str) -> GlossaryTag {
    to_term_tag(tag(name, 0))
}

fn raw_term(expression: &str, reading: &str, tags: Option<&str>, score: i64) -> RawTerm {
    RawTerm {
        expression: expression.to_owned(),
        reading: reading.to_owned(),
        definition_tags: tags.map(str::to_owned),
        rules: String::new(),
        score,
        glossary: vec![RawGlossary::String("to read".to_owned())],
        sequence: 0,
        term_tags: String::new(),
    }
}

fn names(tags: &[GlossaryTag]) -> Vec<String> {
    tags.iter().map(|t| t.name.clone()).collect()
}

#[test]
fn tags_of_banks() {
    let t = to_term_tag(tag("vt", 3));
    assert_eq!((t.name.as_str(), t.description.as_str(), t.order), ("vt", "vt notes", 3));
    let sorted = sort_by_name_len(vec![gtag("abc"), gtag("x"), gtag("yz"), gtag("q")]);
    assert_eq!(names(&sorted), vec!["x", "q", "yz", "abc"]);
    let all = all_tags(vec![vec![tag("vt", 0), tag("n", 1)], vec![tag("v5r", 2)]]);
    assert_eq!(names(&all), vec!["n", "vt", "v5r"]);
}

#[test]
fn definition_tags() {
    let all = vec![gtag("n"), gtag("vt"), gtag("v5r")];
    assert_eq!(names(&match_tags(&all, "  n vt ")), vec!["n", "vt"]);
    assert_eq!(names(&match_tags(&all, "v5r")), vec!["v5r"]);
    assert!(match_tags(&all, "").is_empty());
    assert_eq!(names(&match_tags(&all, "n ?? vt")), vec!["n"]);
}

#[test]
fn frequencies() {
    let f = to_frequency(FrequencyMode::RankBased, FrequencyData::Number(12));
    assert_eq!((f.value, f.display), (Some(FrequencyValue::Rank(12)), None));
    let f = to_frequency(FrequencyMode::OccurrenceBased, FrequencyData::String(" 40 ".to_owned()));
    assert_eq!((f.value, f.display), (Some(FrequencyValue::Occurrence(40)), None));
    let f = to_frequency(FrequencyMode::RankBased, FrequencyData::String("~5".to_owned()));
    assert_eq!((f.value, f.display.as_deref()), (None, Some("~5")));
    let f = to_frequency(
        FrequencyMode::RankBased,
        FrequencyData::Complex { value: 3, display_value: Some("3㋕".to_owned()) },
    );
    assert_eq!((f.value, f.display.as_deref()), (Some(FrequencyValue::Rank(3)), Some("3㋕")));
    assert_eq!(to_pitch_positions(None), Vec::<u64>::new());
    assert_eq!(to_pitch_positions(Some(PitchPosition::One(2))), vec![2]);
    assert_eq!(to_pitch_positions(Some(PitchPosition::Many(vec![0, 3]))), vec![0, 3]);
}

#[test]
fn term_entries() {
    let all = vec![gtag("n"), gtag("vt")];
    let t = term_records(raw_term("読む", " よむ ", Some("vt"), 7), &all).unwrap();
    assert_eq!(
        t.term,
        Term::Full { headword: NormString::new("読む").unwrap(), reading: NormString::new("よむ").unwrap() }
    );
    assert_eq!(t.glossary.popularity, 7);
    assert_eq!(names(&t.glossary.tags), vec!["vt"]);
    assert!(matches!(&t.glossary.content[..], [Content::String(s)] if s == "to read"));
    assert_eq!(t.frequency, FrequencyValue::Occurrence(7));
    assert_eq!(term_records(raw_term(" ", "", None, 0), &all).unwrap_err(), NoHeadwordOrReading);
}

#[test]
fn term_meta_entries() {
    let meta = TermMetaEntry {
        expression: "読む".to_owned(),
        data: TermMetaData::Frequency(TermMetaFrequencyData::WithReading {
            reading: "よむ".to_owned(),
            frequency: FrequencyData::Number(100),
        }),
    };
    let v = term_meta_records(None, meta).unwrap();
    assert_eq!(v.len(), 1);
    assert_eq!(
        v[0].0,
        Term::Full { headword: NormString::new("読む").unwrap(), reading: NormString::new("よむ").unwrap() }
    );
    assert!(matches!(&v[0].1, MetaRecord::Frequency(f) if f.value == Some(FrequencyValue::Rank(100))));
}

#[test]
fn archive_files() {
    assert!(has_index(&vec!["a".to_owned(), "index.json".to_owned()]));
    assert!(!has_index(&vec!["a/index.json".to_owned()]));
    assert_eq!(bank_kind("tag_bank_1.json"), Some(BankKind::Tag));
    assert_eq!(bank_kind("term_bank_12.json"), Some(BankKind::Term));
    assert_eq!(bank_kind("term_meta_bank_3.json"), Some(BankKind::TermMeta));
    assert_eq!(bank_kind("kanji_bank_1.json"), Some(BankKind::Kanji));
    assert_eq!(bank_kind("kanji_meta_bank_1.json"), Some(BankKind::KanjiMeta));
    assert_eq!(bank_kind("term_bank_.json"), None);
    assert_eq!(bank_kind("index.json"), None);
    let files: Vec<String> = ["index.json", "term_bank_2.json", "tag_bank_1.json", "term_bank_1.json", "x.css"]
        .iter()
        .map(|s| s.to_string())
        .collect();
    let p = bank_paths(&files);
    assert_eq!(p.term, vec![(1, "term_bank_2.json".to_owned()), (3, "term_bank_1.json".to_owned())]);
    assert_eq!(p.tag, vec![(2, "tag_bank_1.json".to_owned())]);
    assert!(p.term_meta.is_empty() && p.kanji.is_empty() && p.kanji_meta.is_empty());
    assert_eq!(num_banks(&p), 2);
}

#[test]
fn banks_in_order() {
    let all = vec![gtag("n")];
    let banks = vec![
        Bank::Term(vec![raw_term("猫", "ねこ", Some("n"), 1)]),
        Bank::Kanji,
        Bank::Term(vec![raw_term("犬", "いぬ", None, 2), raw_term("鳥", "とり", None, 3)]),
    ];
    let rows = import_banks(Some(FrequencyMode::RankBased), &all, banks).unwrap();
    assert_eq!(rows.len(), 3);
    assert!(matches!(&rows[2], RowImport::Term(t) if t.frequency == FrequencyValue::Occurrence(3)));
    let bad = vec![
        Bank::Term(vec![raw_term("猫", "ねこ", None, 1)]),
        Bank::Term(vec![raw_term("犬", "", None, 2), raw_term("", "", None, 3)]),
    ];
    assert_eq!(import_banks(None, &all, bad).unwrap_err(), RowError { bank: 1, row: 1 });
}

#[test]
fn row_progress() {
    assert!(!row_progress_due(0));
    assert!(row_progress_due(499));
    assert!(!row_progress_due(500));
    assert!(row_progress_due(999));
}
