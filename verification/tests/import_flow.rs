use wordbase::import::{
    decide_kind, import_step, importer_for, GetKindError, ImportAction, ImportError, ImportState,
    ImportStep, Importer,
};
use wordbase::record::DictionaryId;
use wordbase::term::{DictionaryKind, DictionaryMeta};

#[test]
fn one_kind_accepts() {
    let r = decide_kind(vec![
        (DictionaryKind::Yomitan, Err("no index".to_owned())),
        (DictionaryKind::YomichanAudio, Ok(())),
    ]);
    assert_eq!(r.unwrap(), DictionaryKind::YomichanAudio);
    match decide_kind(vec![(DictionaryKind::Yomitan, Err("bad".to_owned()))]) {
        Err(GetKindError::NoFormat(reasons)) => {
            assert_eq!(reasons, vec![(DictionaryKind::Yomitan, "bad".to_owned())])
        }
        other => panic!("unexpected {other:?}"),
    }
    match decide_kind(vec![(DictionaryKind::Yomitan, Ok(())), (DictionaryKind::YomichanAudio, Ok(()))]) {
        Err(GetKindError::MultipleFormats(kinds)) => {
            assert_eq!(kinds, vec![DictionaryKind::Yomitan, DictionaryKind::YomichanAudio])
        }
        other => panic!("unexpected {other:?}"),
    }
}

#[test]
fn import_runs_in_order() {
    assert_eq!(importer_for(DictionaryKind::Yomitan), Some(Importer::Yomitan));
    let (s, a) = import_step(ImportState::Start, ImportStep::Kind(Ok(DictionaryKind::Yomitan)));
    assert_eq!(s, ImportState::KindKnown(DictionaryKind::Yomitan));
    assert!(matches!(a, ImportAction::StartImport { kind: DictionaryKind::Yomitan, importer: Importer::Yomitan }));
    let meta = DictionaryMeta::new(DictionaryKind::Yomitan, "Jitendex".to_owned());
    let (s, a) = import_step(s, ImportStep::Meta(Ok(meta)));
    assert_eq!(s, ImportState::MetaParsed(DictionaryKind::Yomitan));
    assert!(matches!(a, ImportAction::CheckName { meta } if meta.name == "Jitendex"));
    let (s, a) = import_step(s, ImportStep::NameTaken(false));
    assert_eq!(s, ImportState::Importing(DictionaryKind::Yomitan));
    assert!(matches!(a, ImportAction::ImportRecords));
    let (s, a) = import_step(s, ImportStep::Finished(Ok(DictionaryId(4))));
    assert_eq!(s, ImportState::Done(DictionaryId(4)));
    assert!(matches!(a, ImportAction::Done(DictionaryId(4))));
}

#[test]
fn import_failures() {
    let (s, a) = import_step(ImportState::MetaParsed(DictionaryKind::Yomitan), ImportStep::NameTaken(true));
    assert_eq!(s, ImportState::Failed);
    assert!(matches!(a, ImportAction::Fail(ImportError::AlreadyExists)));
    let (s, a) = import_step(
        ImportState::KindKnown(DictionaryKind::YomichanAudio),
        ImportStep::Meta(Err("broken".to_owned())),
    );
    assert_eq!(s, ImportState::Failed);
    assert!(matches!(a, ImportAction::Fail(ImportError::ParseMeta { kind: DictionaryKind::YomichanAudio, source }) if source == "broken"));
    let (s, a) = import_step(ImportState::Start, ImportStep::NameTaken(false));
    assert_eq!(s, ImportState::Failed);
    assert!(matches!(a, ImportAction::Fail(ImportError::OutOfOrder)));
}

#[test]
fn kind_error_messages() {
    let e = GetKindError::NoFormat(vec![
        (DictionaryKind::Yomitan, "no index".to_owned()),
        (DictionaryKind::YomichanAudio, "no marker".to_owned()),
    ]);
    assert_eq!(
        e.message(),
        "archive does not represent a valid dictionary kind\n\
         does not represent a `Yomitan` dictionary: no index\n\n\
         does not represent a `YomichanAudio` dictionary: no marker\n"
    );
    let e = GetKindError::MultipleFormats(vec![DictionaryKind::Yomitan, DictionaryKind::YomichanAudio]);
    assert_eq!(e.message(), "archive represents multiple dictionary kinds: [Yomitan, YomichanAudio]");
    assert_eq!(
        GetKindError::NoFormat(vec![]).message(),
        "archive does not represent a valid dictionary kind\n"
    );
}
