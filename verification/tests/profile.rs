use wordbase::profile::{profiles_from_rows, removed, NotFound, Profile, ProfileId, ProfileRow};
use wordbase::record::DictionaryId;

fn row(id: i64, name: Option<&str>, dictionary: Option<u64>) -> ProfileRow {
    ProfileRow {
        id: ProfileId(id),
        name: name.map(str::to_owned),
        sorting_dictionary: None,
        font_family: Some("Noto".to_owned()),
        anki_deck: None,
        anki_note_type: None,
        dictionary: dictionary.map(DictionaryId),
    }
}

#[test]
fn new_profile_is_empty() {
    let p = Profile::new(ProfileId(4));
    assert_eq!(p.id, ProfileId(4));
    assert!(p.name.is_none() && p.font_family.is_none() && p.enabled_dictionaries.is_empty());
}

#[test]
fn rows_become_profiles() {
    let rows = vec![
        row(1, None, Some(10)),
        row(2, Some("  mine "), None),
        row(1, None, Some(11)),
    ];
    let ps = profiles_from_rows(&rows);
    assert_eq!(ps.len(), 2);
    assert_eq!(ps[0].id, ProfileId(1));
    assert!(ps[0].name.is_none());
    assert_eq!(ps[0].enabled_dictionaries, vec![DictionaryId(10), DictionaryId(11)]);
    assert_eq!(ps[0].font_family.as_deref(), Some("Noto"));
    assert_eq!(ps[1].id, ProfileId(2));
    assert_eq!(ps[1].name.as_ref().unwrap().as_str(), "mine");
    assert!(ps[1].enabled_dictionaries.is_empty());
    assert!(profiles_from_rows(&vec![]).is_empty());
}

#[test]
fn removing_nothing_is_not_found() {
    assert_eq!(removed(0), Err(NotFound));
    assert_eq!(removed(1), Ok(()));
}
